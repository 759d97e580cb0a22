//! Properties that hold of every load.
use vstd::prelude::*;
use crate::parser::{declared_name, is_header, line_mesh, meshes_of, mesh_word, parse_result, IQE_HEADER};
use crate::taker::{inside_balanced, literal_rest};
use crate::text::{
    first_token, is_line_space, is_white_space, lead_len, lemma_lead_len, lemma_lead_len_bound,
    lemma_trail_len_bound, lemma_trail_len_stops, line_space, lines_of, not_char, not_white,
    skip_spaces, skip_white, trail_len, trim, white,
};
use crate::types::{IqeError, MeshView};

verus! {

/// Loading text that does not start with the header fails: with `Empty`
/// where the text is empty, with `BadHeader` otherwise. `r` is any outcome
/// that `load_from_str` may give on `text`.
pub proof fn lemma_missing_header_fails(text: Seq<char>, r: Result<crate::types::IqeModel, IqeError>)
    requires
        literal_rest(IQE_HEADER@, text) is None,
        parse_result(text, r),
    ensures
        r is Err,
        text.len() == 0 ==> r matches Err(IqeError::Empty),
        text.len() > 0 ==> r matches Err(IqeError::BadHeader),
{
    if text.len() > 0 {
        let k = lead_len(text, not_char('\n')) as int;
        lemma_lead_len_bound(text, not_char('\n'));
        let first = lines_of(text)[0];
        if k < text.len() {
            assert(first == text.take(k));
        } else {
            assert(first == text);
        }
        let h = IQE_HEADER@;
        if is_header(first) {
            assert(text.take(h.len() as int) =~= first.take(h.len() as int));
            assert(false);
        }
    }
}

/// Loading the same text twice gives the same outcome: the same error, or
/// models with the same meshes, names and buffers. `r1` and `r2` are any
/// two outcomes that `load_from_str` may give on `text`.
pub proof fn lemma_load_deterministic(
    text: Seq<char>,
    r1: Result<crate::types::IqeModel, IqeError>,
    r2: Result<crate::types::IqeModel, IqeError>,
)
    requires
        parse_result(text, r1),
        parse_result(text, r2),
    ensures
        r1 is Ok <==> r2 is Ok,
        r1 matches Err(IqeError::Empty) <==> r2 matches Err(IqeError::Empty),
        r1 matches Err(IqeError::BadHeader) <==> r2 matches Err(IqeError::BadHeader),
        (r1 is Ok && r2 is Ok) ==> r1->Ok_0@ == r2->Ok_0@,
{
}

/// A line whose first token is not `mesh` (an unknown command, a comment,
/// a blank line) adds no mesh: the meshes read so far stay as they were.
pub proof fn lemma_other_line_adds_no_mesh(lines: Seq<Seq<char>>, line: Seq<char>)
    requires
        first_token(line) != mesh_word(),
    ensures
        meshes_of(lines.push(line)) == meshes_of(lines),
{
    assert(lines.push(line).drop_last() =~= lines);
}

/// A comment line, whose first token is `#`, adds no mesh.
pub proof fn lemma_comment_adds_no_mesh(lines: Seq<Seq<char>>, line: Seq<char>)
    requires
        first_token(line) == seq!['#'],
    ensures
        meshes_of(lines.push(line)) == meshes_of(lines),
{
    assert(seq!['#'].len() != mesh_word().len());
    lemma_other_line_adds_no_mesh(lines, line);
}

/// A line made of optional leading whitespace, the word `mesh`, at least one
/// space, tab, carriage return or newline, and a quoted name adds one mesh
/// with that name; what follows the closing quote is ignored.
pub proof fn lemma_quoted_name_is_declared(
    lines: Seq<Seq<char>>,
    pre: Seq<char>,
    gap: Seq<char>,
    name: Seq<char>,
    rest: Seq<char>,
)
    requires
        forall|j: int| 0 <= j < pre.len() ==> is_white_space(#[trigger] pre[j]),
        gap.len() > 0,
        forall|j: int| 0 <= j < gap.len() ==> is_line_space(#[trigger] gap[j]),
        !name.contains('"'),
    ensures
        meshes_of(lines.push(pre + mesh_word() + gap + seq!['"'] + name + seq!['"'] + rest))
            == meshes_of(lines).push(MeshView::bare(name)),
{
    let q = '"';
    let t = mesh_word() + gap + seq![q] + name + seq![q] + rest;
    let line = pre + mesh_word() + gap + seq![q] + name + seq![q] + rest;
    assert(line =~= pre + t);
    let g = gap.len() as int;
    let n = name.len() as int;
    // The leading whitespace ends where the word starts.
    assert forall|j: int| 0 <= j < pre.len() implies (white())(#[trigger] line[j]) by {
        assert(line[j] == pre[j]);
    }
    assert(line[pre.len() as int] == 'm');
    lemma_lead_len(line, white(), pre.len() as int);
    assert(skip_white(line) =~= t);
    // The first token is the word.
    assert forall|j: int| 0 <= j < 4 implies (not_white())(#[trigger] t[j]) by {
        assert(t[j] == mesh_word()[j]);
    }
    assert(t[4] == gap[0]);
    lemma_lead_len(t, not_white(), 4);
    assert(first_token(line) =~= mesh_word());
    // Trimming keeps everything up to the closing quote.
    let c = 4 + g + 1 + n;
    assert(t[c] == q);
    lemma_trail_len_stops(t, white(), c);
    lemma_trail_len_bound(t, white());
    let m = t.len() - trail_len(t, white());
    assert(trim(line) =~= t.take(m));
    let u = trim(line).skip(4);
    assert forall|j: int| 0 <= j < g implies (line_space())(#[trigger] u[j]) by {
        assert(u[j] == gap[j]);
    }
    assert(u[g] == q);
    lemma_lead_len(u, line_space(), g);
    let v = skip_spaces(u);
    assert(v[0] == q);
    let body = v.skip(1);
    assert forall|j: int| 0 <= j < n implies (not_char(q))(#[trigger] body[j]) by {
        assert(body[j] == name[j]);
        if name[j] == q {
            assert(name.contains(q));
        }
    }
    assert(body[n] == q);
    lemma_lead_len(body, not_char(q), n);
    assert(body.take(n) =~= name);
    assert(inside_balanced(q, q, v) == Some(name));
    assert(declared_name(trim(line)) == name);
    assert(line_mesh(line) == Some(name));
    assert(lines.push(line).drop_last() =~= lines);
}

} // verus!
