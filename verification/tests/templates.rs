use muse::templates::templates;

#[test]
fn six_builtin_templates() {
    let t = templates();
    let names: Vec<&str> = t.iter().map(|x| x.name).collect();
    assert_eq!(names, vec!["Sphere", "Infinite Cylinder", "Sphere with Hole", "Gyroid", "Torus", "Orbital Tracking"]);
    assert_eq!(t[0].equation, "sqrt(x*x + y*y + z*z) - 10.0");
    assert_eq!(t[3].tag, "advanced");
    assert_eq!(t[5].tag, "physics");
    assert_eq!(t[4].description, "Ring doughnut shape");
}
