//! A link of a robot description and its `link` markup element.
use vstd::prelude::*;
use vstd::string::StringSliceAdditionalSpecFns;
use crate::cylinder_inertia::{in_range, origin_text, push_origin, CylinderInertia};
use crate::elements::Origin;
use crate::markup::{attribute_text, escaped, push_attribute, text_bytes};
use vstd::utf8::encode_utf8;
use crate::pretty::{pretty_outcome, pretty_print, PrettyPrintError};

verus! {

/// A rigid body of a kinematic chain with its optional visual, collision and
/// inertial parts. Lengths and masses are in billionths.
#[derive(Debug, Clone)]
pub struct Link {
    pub link_name: String,
    pub visual_origin: Option<Origin>,
    pub visual_mesh_filename: Option<String>,
    pub material_name: Option<String>,
    pub material_color: Option<String>,
    pub collision_origin: Option<Origin>,
    pub collision_mesh: Option<String>,
    pub inertial_origin: Option<Origin>,
    pub inertial_radius: Option<i64>,
    pub inertial_length: Option<i64>,
    pub inertial_mass: Option<i64>,
    /// One of `mesh`, `cylinder`, `box`, `sphere`; any other kind renders
    /// no geometry element.
    pub geometry_type: Option<String>,
    /// Cylinder: radius, length; box: x, y, z; sphere: radius.
    pub geometry_dimensions: Vec<String>,
}

/// The geometry element selected by `kind`, or nothing when the kind is
/// unknown or its mesh file or dimensions are missing.
pub open spec fn geometry_text(
    kind: Option<String>,
    mesh: Option<String>,
    dims: Seq<String>,
) -> Seq<char> {
    match kind {
        Some(k) => if k@ == "mesh"@ {
            match mesh {
                Some(f) => "<mesh"@ + attribute_text("filename"@, escaped(f@)) + "/>"@,
                None => Seq::empty(),
            }
        } else if k@ == "cylinder"@ && dims.len() >= 2 {
            "<cylinder"@ + attribute_text("radius"@, escaped(dims[0]@)) + attribute_text(
                "length"@,
                escaped(dims[1]@),
            ) + "/>"@
        } else if k@ == "box"@ && dims.len() >= 3 {
            "<box"@ + attribute_text("size"@, escaped(dims[0]@ + " "@ + dims[1]@ + " "@ + dims[2]@))
                + "/>"@
        } else if k@ == "sphere"@ && dims.len() >= 1 {
            "<sphere"@ + attribute_text("radius"@, escaped(dims[0]@)) + "/>"@
        } else {
            Seq::empty()
        },
        None => Seq::empty(),
    }
}

/// The `material` element, present when both its name and color are.
pub open spec fn material_text(name: Option<String>, color: Option<String>) -> Seq<char> {
    match (name, color) {
        (Some(n), Some(c)) => "<material"@ + attribute_text("name"@, escaped(n@)) + ">"@
            + "<color"@ + attribute_text("rgba"@, escaped(c@)) + "/>"@ + "</material>"@,
        _ => Seq::empty(),
    }
}

impl Link {
    /// The inertial fields are all present or all absent, and the cylinder
    /// they describe is within `MAX_SPREAD`.
    pub open spec fn well_formed(&self) -> bool {
        self.inertial_origin.is_some() ==> {
            &&& self.inertial_radius is Some
            &&& self.inertial_length is Some
            &&& self.inertial_mass is Some
            &&& in_range(
                self.inertial_radius.unwrap() as int,
                self.inertial_length.unwrap() as int,
                self.inertial_mass.unwrap() as int,
            )
        }
    }

    /// The `visual` element, present with the visual origin.
    pub open spec fn visual_text(&self) -> Seq<char> {
        match self.visual_origin {
            Some(o) => "<visual>"@ + origin_text(o) + "<geometry>"@ + geometry_text(
                self.geometry_type,
                self.visual_mesh_filename,
                self.geometry_dimensions@,
            ) + "</geometry>"@ + material_text(self.material_name, self.material_color)
                + "</visual>"@,
            None => Seq::empty(),
        }
    }

    /// The `collision` element, present with the collision origin.
    pub open spec fn collision_text(&self) -> Seq<char> {
        match self.collision_origin {
            Some(o) => "<collision>"@ + origin_text(o) + "<geometry>"@ + geometry_text(
                self.geometry_type,
                self.collision_mesh,
                self.geometry_dimensions@,
            ) + "</geometry>"@ + "</collision>"@,
            None => Seq::empty(),
        }
    }

    /// The cylinder that the inertial fields describe.
    pub open spec fn inertial_cylinder(&self) -> CylinderInertia {
        CylinderInertia {
            inertial_radius: self.inertial_radius.unwrap(),
            inertial_length: self.inertial_length.unwrap(),
            inertial_mass: self.inertial_mass.unwrap(),
            inertial_origin: self.inertial_origin.unwrap(),
        }
    }

    /// The `inertial` element, present with the inertial origin.
    pub open spec fn inertial_text(&self) -> Seq<char> {
        if self.inertial_origin.is_some() {
            self.inertial_cylinder().fragment()
        } else {
            Seq::empty()
        }
    }

    /// The compact `link` document.
    pub open spec fn document(&self) -> Seq<char> {
        "<link"@ + attribute_text("name"@, escaped(self.link_name@)) + ">"@ + self.visual_text()
            + self.collision_text() + self.inertial_text() + "</link>"@
    }
}

/// A box needs three dimensions: with fewer, no geometry element is rendered
/// for either the visual or the collision part.
pub proof fn lemma_short_box_omitted(link: Link)
    requires
        link.geometry_type matches Some(k) && k@ == "box"@,
        link.geometry_dimensions@.len() < 3,
    ensures
        geometry_text(link.geometry_type, link.visual_mesh_filename, link.geometry_dimensions@)
            == Seq::<char>::empty(),
        geometry_text(link.geometry_type, link.collision_mesh, link.geometry_dimensions@)
            == Seq::<char>::empty(),
{
    reveal_strlit("box");
    reveal_strlit("mesh");
    reveal_strlit("cylinder");
    reveal_strlit("sphere");
    assert("box"@.len() != "mesh"@.len());
    assert("box"@.len() != "cylinder"@.len());
}

/// A link without visual, collision and inertial parts renders as an empty
/// `link` element carrying only its name.
pub proof fn lemma_bare_link(link: Link)
    requires
        link.visual_origin.is_none(),
        link.collision_origin.is_none(),
        link.inertial_origin.is_none(),
    ensures
        link.document() == "<link"@ + attribute_text("name"@, escaped(link.link_name@)) + ">"@
            + "</link>"@,
{
    assert(link.document() =~= "<link"@ + attribute_text("name"@, escaped(link.link_name@))
        + ">"@ + "</link>"@);
}

/// Whether `k` is the text `name`.
fn is_kind(k: &String, name: &str) -> (r: bool)
    ensures
        r == (k@ == name@),
{
    let lit = name.to_string();
    *k == lit
}

/// Appends the geometry element selected by `kind`.
fn push_geometry(
    out: &mut String,
    kind: &Option<String>,
    mesh: &Option<String>,
    dims: &Vec<String>,
)
    ensures
        final(out)@ == old(out)@ + geometry_text(*kind, *mesh, dims@),
{
    match kind {
        Some(k) => {
            if is_kind(k, "mesh") {
                match mesh {
                    Some(f) => {
                        out.append("<mesh");
                        push_attribute(out, "filename", f.as_str());
                        out.append("/>");
                    },
                    None => {},
                }
            } else if is_kind(k, "cylinder") && dims.len() >= 2 {
                out.append("<cylinder");
                push_attribute(out, "radius", dims[0].as_str());
                push_attribute(out, "length", dims[1].as_str());
                out.append("/>");
            } else if is_kind(k, "box") && dims.len() >= 3 {
                let mut size = dims[0].clone();
                size.append(" ");
                size.append(dims[1].as_str());
                size.append(" ");
                size.append(dims[2].as_str());
                out.append("<box");
                push_attribute(out, "size", size.as_str());
                out.append("/>");
            } else if is_kind(k, "sphere") && dims.len() >= 1 {
                out.append("<sphere");
                push_attribute(out, "radius", dims[0].as_str());
                out.append("/>");
            }
        },
        None => {},
    }
    assert(final(out)@ =~= old(out)@ + geometry_text(*kind, *mesh, dims@));
}

/// Appends the `material` element when both its name and color are present.
fn push_material(out: &mut String, name: &Option<String>, color: &Option<String>)
    ensures
        final(out)@ == old(out)@ + material_text(*name, *color),
{
    match (name, color) {
        (Some(n), Some(c)) => {
            out.append("<material");
            push_attribute(out, "name", n.as_str());
            out.append(">");
            out.append("<color");
            push_attribute(out, "rgba", c.as_str());
            out.append("/>");
            out.append("</material>");
        },
        _ => {},
    }
    assert(final(out)@ =~= old(out)@ + material_text(*name, *color));
}

impl Link {
    fn push_visual(&self, out: &mut String)
        ensures
            final(out)@ == old(out)@ + self.visual_text(),
    {
        match &self.visual_origin {
            Some(o) => {
                out.append("<visual>");
                push_origin(out, o);
                out.append("<geometry>");
                push_geometry(
                    out,
                    &self.geometry_type,
                    &self.visual_mesh_filename,
                    &self.geometry_dimensions,
                );
                out.append("</geometry>");
                push_material(out, &self.material_name, &self.material_color);
                out.append("</visual>");
            },
            None => {},
        }
        assert(final(out)@ =~= old(out)@ + self.visual_text());
    }

    fn push_collision(&self, out: &mut String)
        ensures
            final(out)@ == old(out)@ + self.collision_text(),
    {
        match &self.collision_origin {
            Some(o) => {
                out.append("<collision>");
                push_origin(out, o);
                out.append("<geometry>");
                push_geometry(out, &self.geometry_type, &self.collision_mesh, &self.geometry_dimensions);
                out.append("</geometry>");
                out.append("</collision>");
            },
            None => {},
        }
        assert(final(out)@ =~= old(out)@ + self.collision_text());
    }

    fn push_inertial(&self, out: &mut String)
        requires
            self.well_formed(),
        ensures
            final(out)@ == old(out)@ + self.inertial_text(),
    {
        match &self.inertial_origin {
            Some(o) => {
                let cylinder = CylinderInertia::new(
                    self.inertial_radius.unwrap(),
                    self.inertial_length.unwrap(),
                    self.inertial_mass.unwrap(),
                    *o,
                );
                cylinder.push_fragment(out);
            },
            None => {
                assert(final(out)@ =~= old(out)@ + self.inertial_text());
            },
        }
    }

    /// The compact `link` document as text.
    pub fn to_xml_text(&self) -> (r: String)
        requires
            self.well_formed(),
        ensures
            r@ == self.document(),
    {
        let mut out = String::new();
        out.append("<link");
        push_attribute(&mut out, "name", self.link_name.as_str());
        out.append(">");
        self.push_visual(&mut out);
        self.push_collision(&mut out);
        self.push_inertial(&mut out);
        out.append("</link>");
        assert(out@ =~= self.document());
        out
    }

    /// The compact `link` document as UTF-8 bytes; writing to memory cannot
    /// fail.
    pub fn to_xml(&self) -> (r: Result<Vec<u8>, quick_xml::Error>)
        requires
            self.well_formed(),
        ensures
            r matches Ok(b) && b@ == encode_utf8(self.document()),
    {
        Ok(text_bytes(&self.to_xml_text()))
    }

    /// Re-emits a compact document with each element on its own line,
    /// indented four spaces per level; fails on malformed markup. See
    /// `pretty_print`.
    pub fn pretty_print_xml(input_xml: &str) -> (r: Result<String, PrettyPrintError>)
        requires
            input_xml.spec_bytes().len() <= usize::MAX / 8,
        ensures
            pretty_outcome(input_xml@, input_xml.spec_bytes().len(), r),
    {
        pretty_print(input_xml)
    }
}

impl Default for Link {
    /// An unnamed link with no parts and the mesh geometry kind.
    fn default() -> (r: Self)
        ensures
            r.link_name@ == Seq::<char>::empty(),
            r.visual_origin.is_none(),
            r.visual_mesh_filename.is_none(),
            r.material_name.is_none(),
            r.material_color.is_none(),
            r.collision_origin.is_none(),
            r.collision_mesh.is_none(),
            r.inertial_origin.is_none(),
            r.inertial_radius.is_none(),
            r.inertial_length.is_none(),
            r.inertial_mass.is_none(),
            r.geometry_type matches Some(k) && k@ == "mesh"@,
            r.geometry_dimensions@.len() == 0,
    {
        Link {
            link_name: String::new(),
            visual_origin: None,
            visual_mesh_filename: None,
            material_name: None,
            material_color: None,
            collision_origin: None,
            collision_mesh: None,
            inertial_origin: None,
            inertial_radius: None,
            inertial_length: None,
            inertial_mass: None,
            geometry_type: Some("mesh".to_string()),
            geometry_dimensions: Vec::new(),
        }
    }
}

} // verus!
