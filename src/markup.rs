//! Markup text primitives: attribute escaping and the byte form of a document.
use vstd::prelude::*;
use vstd::string::StrSliceExecFns;
use vstd::utf8::encode_utf8;

verus! {

/// The entity text that stands for `c` inside an attribute value.
pub open spec fn escaped_char(c: char) -> Seq<char> {
    if c == '<' {
        "&lt;"@
    } else if c == '>' {
        "&gt;"@
    } else if c == '\'' {
        "&apos;"@
    } else if c == '&' {
        "&amp;"@
    } else if c == '"' {
        "&quot;"@
    } else {
        seq![c]
    }
}

/// `s` with each markup-special character replaced by its entity.
pub open spec fn escaped(s: Seq<char>) -> Seq<char>
    decreases s.len(),
{
    if s.len() == 0 {
        Seq::empty()
    } else {
        escaped(s.drop_last()) + escaped_char(s.last())
    }
}

/// Relies on `quick_xml::escape::escape`: it replaces each of `<`, `>`, `'`,
/// `&` and `"` by its entity and keeps every other byte, so the result is
/// still UTF-8 and holds the same characters otherwise.
#[verifier::external_body]
pub(crate) fn escape_attribute(s: &str) -> (r: String)
    ensures
        r@ == escaped(s@),
{
    String::from_utf8_lossy(&quick_xml::escape::escape(s.as_bytes())).into_owned()
}

/// The UTF-8 bytes of a text.
pub fn text_bytes(s: &String) -> (r: Vec<u8>)
    ensures
        r@ == encode_utf8(s@),
{
    s.as_str().as_bytes_vec()
}

/// The error type of the markup writer's results.
#[verifier::external_type_specification]
#[verifier::external_body]
pub struct ExXmlError(quick_xml::Error);

/// Appends `name="value"` preceded by a space, with the value escaped.
pub fn push_attribute(out: &mut String, name: &str, value: &str)
    ensures
        final(out)@ == old(out)@ + attribute_text(name@, escaped(value@)),
{
    out.append(" ");
    out.append(name);
    out.append("=\"");
    let e = escape_attribute(value);
    out.append(e.as_str());
    out.append("\"");
    assert(final(out)@ =~= old(out)@ + attribute_text(name@, escaped(value@)));
}

/// ` name="value"`, with `value` taken as already escaped.
pub open spec fn attribute_text(name: Seq<char>, value: Seq<char>) -> Seq<char> {
    " "@ + name + "=\""@ + value + "\""@
}

} // verus!
