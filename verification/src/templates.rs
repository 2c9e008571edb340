use vstd::prelude::*;

verus! {

/// A starting equation for the signed-distance editor.
#[derive(Clone, Copy)]
pub struct Template {
    pub name: &'static str,
    pub equation: &'static str,
    pub tag: &'static str,
    pub description: &'static str,
}

/// The built-in templates, in display order.
pub fn templates() -> (r: Vec<Template>)
    ensures
        r@.len() == 6,
        r@[0].name@ == "Sphere"@,
        r@[0].equation@ == "sqrt(x*x + y*y + z*z) - 10.0"@,
        r@[0].tag@ == "geometry"@,
        r@[0].description@ == "Basic signed distance sphere"@,
        r@[1].name@ == "Infinite Cylinder"@,
        r@[1].equation@ == "sqrt(x*x + y*y) - 5.0"@,
        r@[1].tag@ == "geometry"@,
        r@[1].description@ == "Endless tube along the Z axis"@,
        r@[2].name@ == "Sphere with Hole"@,
        r@[2].equation@ == "Max(sqrt(x*x + y*y + z*z) - 10.0, -(sqrt(x*x + y*y) - 4.0))"@,
        r@[2].tag@ == "geometry"@,
        r@[2].description@ == "Sphere with a cylindrical void through center"@,
        r@[3].name@ == "Gyroid"@,
        r@[3].equation@ == "sin(x)*cos(y) + sin(y)*cos(z) + sin(z)*cos(x)"@,
        r@[3].tag@ == "advanced"@,
        r@[3].description@ == "Triply periodic minimal surface"@,
        r@[4].name@ == "Torus"@,
        r@[4].equation@ == "sqrt((sqrt(x*x + z*z) - 8.0)*(sqrt(x*x + z*z) - 8.0) + y*y) - 3.0"@,
        r@[4].tag@ == "geometry"@,
        r@[4].description@ == "Ring doughnut shape"@,
        r@[5].name@ == "Orbital Tracking"@,
        r@[5].equation@
            == "sqrt((x - state.x)*(x - state.x) + (y - state.y)*(y - state.y) + (z - state.z)*(z - state.z)) - 5.0"@,
        r@[5].tag@ == "physics"@,
        r@[5].description@ == "Follows a moving entity with a spherical probe"@,
{
    vec![
        Template {
            name: "Sphere",
            equation: "sqrt(x*x + y*y + z*z) - 10.0",
            tag: "geometry",
            description: "Basic signed distance sphere",
        },
        Template {
            name: "Infinite Cylinder",
            equation: "sqrt(x*x + y*y) - 5.0",
            tag: "geometry",
            description: "Endless tube along the Z axis",
        },
        Template {
            name: "Sphere with Hole",
            equation: "Max(sqrt(x*x + y*y + z*z) - 10.0, -(sqrt(x*x + y*y) - 4.0))",
            tag: "geometry",
            description: "Sphere with a cylindrical void through center",
        },
        Template {
            name: "Gyroid",
            equation: "sin(x)*cos(y) + sin(y)*cos(z) + sin(z)*cos(x)",
            tag: "advanced",
            description: "Triply periodic minimal surface",
        },
        Template {
            name: "Torus",
            equation: "sqrt((sqrt(x*x + z*z) - 8.0)*(sqrt(x*x + z*z) - 8.0) + y*y) - 3.0",
            tag: "geometry",
            description: "Ring doughnut shape",
        },
        Template {
            name: "Orbital Tracking",
            equation: "sqrt((x - state.x)*(x - state.x) + (y - state.y)*(y - state.y) + (z - state.z)*(z - state.z)) - 5.0",
            tag: "physics",
            description: "Follows a moving entity with a spherical probe",
        },
    ]
}

} // verus!
