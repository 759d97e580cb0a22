const CUBE: &'static str = "# Inter-Quake Export
mesh \"Cube\"
material \"Material\"
vp 1.000000 1.000000 -1.000000
vp 1.000000 -1.000000 -1.000000
vp -1.000000 -1.000000 -1.000000
vp -1.000000 1.000000 -1.000000
vp 1.000000 1.000000 1.000000
vp 1.000000 -1.000000 1.000000
vp -1.000000 -1.000000 1.000000
vp -1.000000 1.000000 1.000000
vn 0.000000 0.000000 -1.000000
vn 0.000000 0.000000 1.000000
vn 1.000000 0.000000 0.000000
vn 0.000000 -1.000000 0.000000
vn -1.000000 0.000000 0.000000
vn 0.000000 1.000000 0.000000
vt 0.000000 0.000000
vt 1.000000 0.000000
vt 1.000000 1.000000
vt 0.000000 1.000000
fm 0 1 2
fm 0 2 3
fm 4 7 6
fm 4 6 5
fm 0 4 5
fm 0 5 1
fm 1 5 6
fm 1 6 2
fm 2 6 7
fm 2 7 3
fm 4 0 3
fm 4 3 7
";

#[test]
fn it_loads_cube() {
    let loaded = iqe::load_from_str(CUBE);

    assert!(loaded.is_ok());

    let result = loaded.unwrap();

    assert_eq!(result.meshes.len(), 1);
}
