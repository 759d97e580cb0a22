//! The header check and the line dispatcher that turn text into a model.
use vstd::prelude::*;
use crate::taker::{inside_balanced, literal_rest, TakeInsideBalanced, TakeLiteral, TakeOr, TakeSequence, TakeWhitespace, Taker};
use crate::text::{char_vec, first_token, lemma_lead_len, lemma_lead_len_bound, lemma_token_starts_trim, lines_of, not_char, segment_is, skip_spaces, token_run, trim, trim_str, white, white_run};
use crate::types::{IqeError, IqeMesh, IqeModel, MeshView};

verus! {

/// The text that the first line of every input must start with.
pub const IQE_HEADER: &'static str = "# Inter-Quake Export";

/// The command word that declares a mesh.
pub open spec fn mesh_word() -> Seq<char> {
    seq!['m', 'e', 's', 'h']
}

/// Whether `line` starts with the required header.
pub open spec fn is_header(line: Seq<char>) -> bool {
    literal_rest(IQE_HEADER@, line) is Some
}

/// The name that a trimmed `mesh` line declares: what stands between the
/// first pair of double quotes after the word and the spaces, tabs,
/// carriage returns and newlines that follow it, or the empty name where
/// there is no such pair.
pub open spec fn declared_name(t: Seq<char>) -> Seq<char> {
    match inside_balanced('"', '"', skip_spaces(t.skip(4))) {
        Some(n) => n,
        None => seq![],
    }
}

/// The name of the mesh that `line` declares, or `None` where its first
/// token is not `mesh`.
pub open spec fn line_mesh(line: Seq<char>) -> Option<Seq<char>> {
    if first_token(line) == mesh_word() {
        Some(declared_name(trim(line)))
    } else {
        None
    }
}

/// The meshes that `lines`, read in order, declare.
pub open spec fn meshes_of(lines: Seq<Seq<char>>) -> Seq<MeshView>
    decreases lines.len(),
{
    if lines.len() == 0 {
        seq![]
    } else {
        let prev = meshes_of(lines.drop_last());
        match line_mesh(lines.last()) {
            Some(n) => prev.push(MeshView::bare(n)),
            None => prev,
        }
    }
}

/// What loading `text` gives: `Empty` without any line, `BadHeader` where
/// the first line lacks the header, else the meshes that the other lines
/// declare.
pub open spec fn parse_result(text: Seq<char>, r: Result<IqeModel, IqeError>) -> bool {
    let lines = lines_of(text);
    if lines.len() == 0 {
        r matches Err(IqeError::Empty)
    } else if !is_header(lines[0]) {
        r matches Err(IqeError::BadHeader)
    } else {
        match r {
            Ok(m) => m@ == meshes_of(lines.drop_first()) && m.wf(),
            Err(_) => false,
        }
    }
}

/// The parse in progress: the model so far, and the mesh that later
/// attribute commands would extend.
pub(crate) struct ParseState {
    pub(crate) model: IqeModel,
    pub(crate) current_mesh: Option<usize>,
}

impl ParseState {
    /// The model is well formed and the current mesh is the last one.
    pub(crate) open spec fn wf(&self) -> bool {
        &&& self.model.wf()
        &&& if self.model@.len() == 0 {
            self.current_mesh is None
        } else {
            self.current_mesh == Some((self.model@.len() - 1) as usize)
        }
    }

    pub(crate) fn new() -> (r: ParseState)
        ensures
            r.wf(),
            r.model@ == Seq::<MeshView>::empty(),
    {
        ParseState { model: IqeModel::new(), current_mesh: None }
    }
}

/// Relies on `str::split_once` with a `char` pattern: it splits around the
/// first occurrence of that character, and gives `None` without one.
#[verifier::external_body]
fn split_newline<'a>(s: &'a str) -> (r: Option<(&'a str, &'a str)>)
    ensures
        match r {
            Some((a, b)) => s@ == a@ + seq!['\n'] + b@ && !a@.contains('\n'),
            None => !s@.contains('\n'),
        },
{
    s.split_once('\n')
}

/// The first line of `text` and the text after it, or `None` where `text`
/// holds no line.
fn next_line<'a>(text: &'a str) -> (r: (Option<&'a str>, &'a str))
    ensures
        match r.0 {
            Some(l) => lines_of(text@) == seq![l@] + lines_of(r.1@) && r.1@.len() < text@.len(),
            None => lines_of(text@).len() == 0,
        },
{
    if text.is_empty() {
        return (None, text);
    }
    match split_newline(text) {
        Some((a, b)) => {
            proof {
                let s = text@;
                assert forall|j: int| 0 <= j < a@.len() implies (not_char('\n'))(#[trigger] s[j]) by {
                    assert(s[j] == a@[j]);
                }
                assert(s[a@.len() as int] == '\n');
                lemma_lead_len(s, not_char('\n'), a@.len() as int);
                assert(s.take(a@.len() as int) =~= a@);
                assert(s.skip(a@.len() as int + 1) =~= b@);
            }
            (Some(a), b)
        },
        None => {
            let empty: &str = "";
            proof {
                reveal_strlit("");
                let s = text@;
                assert forall|j: int| 0 <= j < s.len() implies (not_char('\n'))(#[trigger] s[j]) by {
                    if s[j] == '\n' {
                        assert(s.contains('\n'));
                    }
                }
                lemma_lead_len(s, not_char('\n'), s.len() as int);
                assert(lines_of(empty@) =~= Seq::<Seq<char>>::empty());
                assert(seq![s] + lines_of(empty@) =~= seq![s]);
            }
            (Some(text), empty)
        },
    }
}

/// Checks the first line of the input: `Empty` where there is none,
/// `BadHeader` where it does not start with the header.
pub fn match_header(first: Option<&str>) -> (r: Result<(), IqeError>)
    ensures
        match first {
            None => r matches Err(IqeError::Empty),
            Some(l) => if is_header(l@) {
                r is Ok
            } else {
                r matches Err(IqeError::BadHeader)
            },
        },
{
    match first {
        None => Err(IqeError::Empty),
        Some(line) => {
            let header = TakeLiteral::new(IQE_HEADER);
            match header.take(line) {
                Some(_) => Ok(()),
                None => Err(IqeError::BadHeader),
            }
        },
    }
}

/// Declares a mesh from a trimmed line that starts with `mesh`: the word,
/// then whitespace, then an optional quoted name that defaults to the empty
/// one. The new mesh is appended and becomes the current mesh.
fn match_mesh(state: &mut ParseState, source: &str) -> (r: Result<(), IqeError>)
    requires
        old(state).wf(),
    ensures
        final(state).wf(),
        match r {
            Ok(()) => {
                &&& literal_rest(mesh_word(), source@) is Some
                &&& final(state).model@ == old(state).model@.push(
                    MeshView::bare(declared_name(source@)),
                )
            },
            Err(e) => {
                &&& e matches IqeError::InternalParserError
                &&& literal_rest(mesh_word(), source@) is None
                &&& final(state).model@ == old(state).model@
            },
        },
{
    let mut takers: Vec<Taker> = Vec::new();
    takers.push(Taker::Literal(TakeLiteral::new("mesh")));
    takers.push(Taker::Whitespace(TakeWhitespace::new()));
    takers.push(
        Taker::Or(TakeOr::new(Taker::InsideBalanced(TakeInsideBalanced::new('"', '"')), "")),
    );
    let taker = TakeSequence::new(takers);
    let ghost ts = taker.takers@;
    proof {
        reveal_strlit("mesh");
        reveal_strlit("");
        assert("mesh"@ =~= mesh_word());
        assert(ts.drop_last().drop_last().drop_last() =~= Seq::<Taker>::empty());
        reveal_with_fuel(crate::taker::take_all, 4);
        reveal_with_fuel(Taker::spec_take, 2);
    }
    match taker.take(source) {
        Some(name) => {
            assert(literal_rest(mesh_word(), source@) is Some);
            assert(name@ == declared_name(source@));
            let mesh = IqeMesh::new(name);
            let ghost before = state.model@;
            state.model.meshes.push(mesh);
            state.current_mesh = Some(state.model.meshes.len() - 1);
            assert(state.model@ =~= before.push(MeshView::bare(declared_name(source@))));
            Ok(())
        },
        None => Err(IqeError::InternalParserError),
    }
}

/// Reads one line: a line whose first token is `mesh` declares a mesh; a
/// blank line, a comment (`#`) and any other command change nothing.
fn match_line(state: &mut ParseState, line: &str) -> (r: Result<(), IqeError>)
    requires
        old(state).wf(),
    ensures
        final(state).wf(),
        r is Ok,
        final(state).model@ == match line_mesh(line@) {
            Some(n) => old(state).model@.push(MeshView::bare(n)),
            None => old(state).model@,
        },
{
    let cs = char_vec(line);
    let a = white_run(&cs);
    proof {
        lemma_lead_len_bound(line@, white());
    }
    let n = token_run(&cs, a);
    assert(first_token(line@) =~= cs@.subrange(a as int, a + n));
    proof {
        reveal_strlit("mesh");
        assert("mesh"@ =~= mesh_word());
    }
    if segment_is(&cs, a, n, "mesh") {
        let t = trim_str(line);
        proof {
            lemma_token_starts_trim(line@);
            assert(t@.take(4) =~= mesh_word());
        }
        match_mesh(state, t)
    } else {
        Ok(())
    }
}

/// Reads every line of `text` in order into `state`.
fn match_lines(state: &mut ParseState, text: &str) -> (r: Result<(), IqeError>)
    requires
        old(state).wf(),
    ensures
        final(state).wf(),
        r is Ok,
        final(state).model@ == old(state).model@ + meshes_of(lines_of(text@)),
{
    let ghost start = state.model@;
    let ghost mut done: Seq<Seq<char>> = seq![];
    let mut rest = text;
    assert(seq![] + lines_of(text@) =~= lines_of(text@));
    assert(start + meshes_of(done) =~= start);
    loop
        invariant
            state.wf(),
            lines_of(text@) == done + lines_of(rest@),
            state.model@ == start + meshes_of(done),
        ensures
            state.wf(),
            state.model@ == start + meshes_of(lines_of(text@)),
        decreases rest@.len(),
    {
        let (line, after) = next_line(rest);
        match line {
            None => {
                assert(done + lines_of(rest@) =~= done);
                break;
            },
            Some(l) => {
                let _ = match_line(state, l);
                proof {
                    assert(done.push(l@).drop_last() =~= done);
                    assert(done + lines_of(rest@) =~= done.push(l@) + lines_of(after@));
                    assert(start + meshes_of(done).push(MeshView::bare(declared_name(trim(l@))))
                        =~= (start + meshes_of(done)).push(MeshView::bare(declared_name(trim(l@)))));
                    done = done.push(l@);
                }
                rest = after;
            },
        }
    }
    Ok(())
}

/// Loads a model from text: the first line must start with the header, and
/// each later line is read in order.
pub fn load_from_str(source: &str) -> (r: Result<IqeModel, IqeError>)
    ensures
        parse_result(source@, r),
{
    let (first, rest) = next_line(source);
    match match_header(first) {
        Err(e) => {
            return Err(e);
        },
        Ok(()) => {},
    }
    let mut state = ParseState::new();
    let _ = match_lines(&mut state, rest);
    assert(lines_of(source@).drop_first() =~= lines_of(rest@));
    assert(Seq::<MeshView>::empty() + meshes_of(lines_of(rest@)) =~= meshes_of(lines_of(rest@)));
    Ok(state.model)
}

} // verus!
