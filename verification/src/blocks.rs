//! The fixed set of HTML block-level element names. Opening or closing one of
//! these elements is a candidate line-break point; every other element is
//! inline and contributes nothing to the extracted text.

use vstd::prelude::*;

use crate::text::str_eq;

verus! {

/// Membership in the block-level element set: the 33 tag names that
/// conventionally start on their own line in rendered layout. Matching is
/// case-sensitive; parsers hand tag names over already lower-cased.
pub open spec fn is_block_tag(tag: Seq<char>) -> bool {
    ||| tag == "address"@
    ||| tag == "article"@
    ||| tag == "aside"@
    ||| tag == "blockquote"@
    ||| tag == "dd"@
    ||| tag == "details"@
    ||| tag == "dialog"@
    ||| tag == "div"@
    ||| tag == "dl"@
    ||| tag == "dt"@
    ||| tag == "fieldset"@
    ||| tag == "figcaption"@
    ||| tag == "figure"@
    ||| tag == "footer"@
    ||| tag == "form"@
    ||| tag == "h1"@
    ||| tag == "h2"@
    ||| tag == "h3"@
    ||| tag == "h4"@
    ||| tag == "h5"@
    ||| tag == "h6"@
    ||| tag == "header"@
    ||| tag == "hgroup"@
    ||| tag == "hr"@
    ||| tag == "li"@
    ||| tag == "main"@
    ||| tag == "nav"@
    ||| tag == "ol"@
    ||| tag == "p"@
    ||| tag == "pre"@
    ||| tag == "section"@
    ||| tag == "table"@
    ||| tag == "ul"@
}

/// Whether `name` is one of the block-level element names.
pub fn is_block_element(name: &str) -> (r: bool)
    ensures
        r == is_block_tag(name@),
{
    str_eq(name, "address") || str_eq(name, "article") || str_eq(name, "aside")
        || str_eq(name, "blockquote") || str_eq(name, "dd") || str_eq(name, "details")
        || str_eq(name, "dialog") || str_eq(name, "div") || str_eq(name, "dl")
        || str_eq(name, "dt") || str_eq(name, "fieldset") || str_eq(name, "figcaption")
        || str_eq(name, "figure") || str_eq(name, "footer") || str_eq(name, "form")
        || str_eq(name, "h1") || str_eq(name, "h2") || str_eq(name, "h3") || str_eq(name, "h4")
        || str_eq(name, "h5") || str_eq(name, "h6") || str_eq(name, "header")
        || str_eq(name, "hgroup") || str_eq(name, "hr") || str_eq(name, "li")
        || str_eq(name, "main") || str_eq(name, "nav") || str_eq(name, "ol")
        || str_eq(name, "p") || str_eq(name, "pre") || str_eq(name, "section")
        || str_eq(name, "table") || str_eq(name, "ul")
}

} // verus!
