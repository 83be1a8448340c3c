use robot_description::attributes::{JointAttributes, JointType};
use robot_description::elements::Origin;
use robot_description::link::Link;

fn zero_origin() -> Origin {
    Origin {
        xyz: (0, 0, 0),
        rpy: (0, 0, 0),
    }
}

fn full_link() -> Link {
    let mut link = Link::default();
    link.link_name = "link1".to_string();
    link.visual_origin = Some(zero_origin());
    link.visual_mesh_filename = Some("package://package_name/meshes/mesh.stl".to_string());
    link.material_name = Some("material_name".to_string());
    link.material_color = Some("0.1 0.2 0.3 0.4".to_string());
    link.collision_origin = Some(zero_origin());
    link.collision_mesh = Some("package://package_name/meshes/mesh.stl".to_string());
    link.inertial_origin = Some(zero_origin());
    link.inertial_radius = Some(100_000_000);
    link.inertial_length = Some(200_000_000);
    link.inertial_mass = Some(1_000_000_000);
    link.geometry_type = Some("mesh".to_string());
    link.geometry_dimensions = vec!["0.1".to_string(), "0.2".to_string()];
    link
}

fn visual_only(kind: &str, dims: &[&str]) -> Link {
    let mut link = Link::default();
    link.link_name = "g".to_string();
    link.visual_origin = Some(zero_origin());
    link.geometry_type = Some(kind.to_string());
    link.geometry_dimensions = dims.iter().map(|d| d.to_string()).collect();
    link
}

fn visual_geometry(link: &Link) -> String {
    let text = link.to_xml_text();
    let start = text.find("<geometry>").unwrap() + "<geometry>".len();
    let end = text.find("</geometry>").unwrap();
    text[start..end].to_string()
}

#[test]
fn test_link_to_xml() {
    let link = full_link();
    let link_xml = link.to_xml().unwrap();
    let link_xml_str = String::from_utf8(link_xml).unwrap();

    match Link::pretty_print_xml(&link_xml_str) {
        Ok(pretty_xml) => println!("{}", pretty_xml),
        Err(e) => println!("Error: {:?}", e),
    }

    let expected_xml = r#"<link name="link1">
<visual>
<origin xyz="0 0 0" rpy="0 0 0"/>
<geometry>
<mesh filename="package://package_name/meshes/mesh.stl"/>
</geometry>
<material name="material_name">
<color rgba="0.1 0.2 0.3 0.4"/>
</material>
</visual>
<collision>
<origin xyz="0 0 0" rpy="0 0 0"/>
<geometry>
<mesh filename="package://package_name/meshes/mesh.stl"/>
</geometry>
</collision>
<inertial>
<mass value="1.000000000"/>
<origin xyz="0 0 0" rpy="0 0 0"/>
<inertia ixx="0.005833331" ixy="0.000000000" ixz="0.000000000" iyy="0.005833331" iyz="0.000000000" izz="0.005000000"/>
</inertial>
</link>"#;
    // The document itself is compact: the lines above joined without breaks.
    assert_eq!(link_xml_str, expected_xml.replace('\n', ""));
}

#[test]
fn bare_link_is_an_empty_element() {
    let mut link = Link::default();
    link.link_name = "X".to_string();
    assert_eq!(link.to_xml().unwrap(), br#"<link name="X"></link>"#.to_vec());
}

#[test]
fn short_box_is_omitted() {
    let link = visual_only("box", &["1", "2"]);
    assert_eq!(
        link.to_xml_text(),
        r#"<link name="g"><visual><origin xyz="0 0 0" rpy="0 0 0"/><geometry></geometry></visual></link>"#
    );
}

#[test]
fn box_joins_three_dimensions() {
    let link = visual_only("box", &["1", "2", "3"]);
    assert_eq!(visual_geometry(&link), r#"<box size="1 2 3"/>"#);
}

#[test]
fn cylinder_takes_radius_and_length() {
    let link = visual_only("cylinder", &["0.1", "0.2"]);
    assert_eq!(visual_geometry(&link), r#"<cylinder radius="0.1" length="0.2"/>"#);
    let short = visual_only("cylinder", &["0.1"]);
    assert_eq!(visual_geometry(&short), "");
}

#[test]
fn sphere_takes_radius() {
    let link = visual_only("sphere", &["0.5"]);
    assert_eq!(visual_geometry(&link), r#"<sphere radius="0.5"/>"#);
    let short = visual_only("sphere", &[]);
    assert_eq!(visual_geometry(&short), "");
}

#[test]
fn unknown_kind_renders_no_geometry() {
    let link = visual_only("capsule", &["1", "2", "3"]);
    assert_eq!(visual_geometry(&link), "");
    let mut none = visual_only("mesh", &[]);
    none.geometry_type = None;
    assert_eq!(visual_geometry(&none), "");
}

#[test]
fn mesh_without_file_renders_no_geometry() {
    let link = visual_only("mesh", &[]);
    assert_eq!(visual_geometry(&link), "");
}

#[test]
fn material_needs_name_and_color() {
    let mut link = visual_only("sphere", &["1"]);
    link.material_name = Some("steel".to_string());
    assert!(!link.to_xml_text().contains("<material"));
    link.material_color = Some("1 1 1 1".to_string());
    assert!(link
        .to_xml_text()
        .contains(r#"<material name="steel"><color rgba="1 1 1 1"/></material></visual>"#));
}

#[test]
fn collision_uses_its_own_mesh() {
    let mut link = Link::default();
    link.link_name = "c".to_string();
    link.collision_origin = Some(Origin {
        xyz: (1_000_000_000, 0, 0),
        rpy: (0, 0, 500_000_000),
    });
    link.collision_mesh = Some("hull.stl".to_string());
    link.visual_mesh_filename = Some("fine.stl".to_string());
    assert_eq!(
        link.to_xml_text(),
        r#"<link name="c"><collision><origin xyz="1 0 0" rpy="0 0 0.5"/><geometry><mesh filename="hull.stl"/></geometry></collision></link>"#
    );
}

#[test]
fn attribute_values_are_escaped() {
    let mut link = Link::default();
    link.link_name = "a&b \"<c>\" 'd'".to_string();
    assert_eq!(
        link.to_xml_text(),
        r#"<link name="a&amp;b &quot;&lt;c&gt;&quot; &apos;d&apos;"></link>"#
    );
}

#[test]
fn bytes_are_the_utf8_of_the_text() {
    let mut link = full_link();
    link.link_name = "glied_ä".to_string();
    let text = link.to_xml_text();
    assert_eq!(link.to_xml().unwrap(), text.as_bytes().to_vec());
}

#[test]
fn pretty_print_changes_only_whitespace() {
    let compact = full_link().to_xml_text();
    let pretty = Link::pretty_print_xml(&compact).unwrap();
    assert!(pretty.contains("\n    <visual>"));
    assert!(pretty.contains("\n        <origin"));
    let joined: String = pretty.lines().map(|l| l.trim_start()).collect();
    assert_eq!(joined, compact);
}

#[test]
fn pretty_print_rejects_malformed_markup() {
    assert!(Link::pretty_print_xml("<link><visual></link>").is_err());
}

#[test]
fn joint_type_names() {
    assert_eq!(JointType::Prismatic.as_str(), "prismatic");
    assert_eq!(JointType::Revolute.as_str(), "revolute");
    assert_eq!(JointType::Fixed.as_str(), "fixed");
    assert_eq!(JointType::Floating.as_str(), "floating");
    assert_eq!(JointType::Planar.as_str(), "planar");
    assert_eq!(JointType::Continuous.as_str(), "continuous");
    assert_eq!(JointAttributes::default().joint_type, JointType::Revolute);
}

#[test]
fn pretty_print_is_idempotent() {
    let compact = full_link().to_xml_text();
    let once = Link::pretty_print_xml(&compact).unwrap();
    let twice = Link::pretty_print_xml(&once).unwrap();
    assert_eq!(once, twice);
}

#[test]
fn pretty_print_rejects_mismatched_end_tag() {
    assert!(Link::pretty_print_xml("<a></b>").is_err());
}
