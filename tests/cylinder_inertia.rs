use robot_description::cylinder_inertia::CylinderInertia;
use robot_description::elements::Origin;
use robot_description::link::Link;

fn sample_cylinder() -> CylinderInertia {
    let origin = Origin {
        xyz: (0, 0, 0),
        rpy: (0, 0, 0),
    };
    let mut cylinder = CylinderInertia::default();
    cylinder.inertial_radius = 100_000_000;
    cylinder.inertial_length = 200_000_000;
    cylinder.inertial_mass = 1_000_000_000;
    cylinder.inertial_origin = origin;
    cylinder
}

#[test]
fn test_cylinder_inertia() {
    let cylinder = sample_cylinder();
    let inertia = cylinder.calculate_inertia();

    assert_eq!(inertia.ixx, 5_833_331);
    assert_eq!(inertia.ixy, 0);
    assert_eq!(inertia.ixz, 0);
    assert_eq!(inertia.iyy, 5_833_331);
    assert_eq!(inertia.iyz, 0);
    assert_eq!(inertia.izz, 5_000_000);
}

#[test]
fn test_cylinder_inertia_to_xml() {
    let cylinder = sample_cylinder();
    let xml = cylinder.to_xml().unwrap();

    let expected_xml = r#"<inertial><mass value="1.000000000"/><origin xyz="0 0 0" rpy="0 0 0"/><inertia ixx="0.005833331" ixy="0.000000000" ixz="0.000000000" iyy="0.005833331" iyz="0.000000000" izz="0.005000000"/></inertial>"#;
    assert_eq!(xml, expected_xml.as_bytes());
}

#[test]
fn test_print_inertia_to_xml() {
    let cylinder = sample_cylinder();
    let xml = cylinder.to_xml().unwrap();
    let xml_string = String::from_utf8(xml).unwrap();

    match Link::pretty_print_xml(&xml_string) {
        Ok(pretty_xml) => println!("{}", pretty_xml),
        Err(e) => println!("Error: {:?}", e),
    }
}

#[test]
fn moments_follow_the_cylinder_formulas() {
    // r = 1, l = 3, m = 12: ixx = 0.0833333 * 12 * (3 + 9), izz = 12 / 2.
    let cylinder = CylinderInertia::new(1_000_000_000, 3_000_000_000, 12_000_000_000, Origin::default());
    let t = cylinder.calculate_inertia();
    assert_eq!(t.ixx, 11_999_995_200);
    assert_eq!(t.iyy, t.ixx);
    assert_eq!(t.izz, 6_000_000_000);
    assert_eq!((t.ixy, t.ixz, t.iyz), (0, 0, 0));
}

#[test]
fn moments_on_the_grid_stay_unchanged() {
    // m * r^2 / 2 = 2 * 1 / 2 = 1 exactly.
    let cylinder = CylinderInertia::new(1_000_000_000, 0, 2_000_000_000, Origin::default());
    assert_eq!(cylinder.calculate_inertia().izz, 1_000_000_000);
}

#[test]
fn rounding_ties_go_to_even() {
    // m * r^2 / 2 is half a billionth: rounds down to zero.
    let half = CylinderInertia::new(1_000_000, 0, 1_000_000, Origin::default());
    assert_eq!(half.calculate_inertia().izz, 0);
    // One and a half billionths: rounds up to two.
    let one_and_half = CylinderInertia::new(1_000_000, 0, 3_000_000, Origin::default());
    assert_eq!(one_and_half.calculate_inertia().izz, 2);
}

#[test]
fn zero_cylinder_has_zero_moments() {
    let t = CylinderInertia::default().calculate_inertia();
    assert_eq!((t.ixx, t.iyy, t.izz), (0, 0, 0));
}

#[test]
fn negative_mass_gives_negative_moments_and_text() {
    let cylinder = CylinderInertia::new(100_000_000, 200_000_000, -1_000_000_000, Origin::default());
    let t = cylinder.calculate_inertia();
    assert_eq!(t.ixx, -5_833_331);
    assert_eq!(t.izz, -5_000_000);
    let text = cylinder.render_fragment();
    assert!(text.starts_with(r#"<inertial><mass value="-1.000000000"/>"#));
    assert!(text.contains(r#"ixx="-0.005833331""#));
}

#[test]
fn largest_cylinder_is_computed_exactly() {
    let max = 1_000_000_000_000;
    let t = CylinderInertia::new(max, max, max, Origin::default()).calculate_inertia();
    // 0.0833333 * 1000 * (3e6 + 1e6) and 1000 * 1e6 / 2.
    assert_eq!(t.ixx, 333_333_200_000_000_000);
    assert_eq!(t.izz, 500_000_000_000_000_000);
}

#[test]
fn origin_values_use_shortest_form() {
    let origin = Origin {
        xyz: (1_500_000_000, -250_000_000, 0),
        rpy: (3_141_592_653, 10, -2_000_000_000),
    };
    let cylinder = CylinderInertia::new(0, 0, 2_500_000_000, origin);
    let text = cylinder.render_fragment();
    let expected = r#"<inertial><mass value="2.500000000"/><origin xyz="1.5 -0.25 0" rpy="3.141592653 0.00000001 -2"/><inertia ixx="0.000000000" ixy="0.000000000" ixz="0.000000000" iyy="0.000000000" iyz="0.000000000" izz="0.000000000"/></inertial>"#;
    assert_eq!(text, expected);
}

#[test]
fn heavy_narrow_cylinder_is_accepted() {
    // 2000 kg at radius 0.1 and length 0: izz = 2000 * 0.01 / 2 = 10.
    let cylinder = CylinderInertia::new(100_000_000, 0, 2_000_000_000_000, Origin::default());
    let t = cylinder.calculate_inertia();
    assert_eq!(t.izz, 10_000_000_000);
    assert_eq!(t.ixx, 4_999_998_000);
}

#[test]
fn inertial_fragment_pretty_prints_one_tag_per_line() {
    let xml = String::from_utf8(sample_cylinder().to_xml().unwrap()).unwrap();
    let pretty = Link::pretty_print_xml(&xml).unwrap();
    let lines: Vec<&str> = pretty.lines().collect();
    assert_eq!(
        lines,
        vec![
            "<inertial>",
            r#"    <mass value="1.000000000"/>"#,
            r#"    <origin xyz="0 0 0" rpy="0 0 0"/>"#,
            r#"    <inertia ixx="0.005833331" ixy="0.000000000" ixz="0.000000000" iyy="0.005833331" iyz="0.000000000" izz="0.005000000"/>"#,
            "</inertial>",
        ]
    );
}
