//! The name of the file `create_wit_file` writes, taken from the attribute.

use vstd::prelude::*;
use vstd::string::StringExecFns;

use crate::text::{chars_of, string_of};

verus! {

broadcast use vstd::string::group_string_axioms;

/// The attribute's argument: no literal at all, a string literal with its
/// value, or a literal of another kind.
pub enum WitFileAttr {
    NoLiteral,
    Str(String),
    OtherLiteral,
}

/// The attribute's argument is a literal that is not a string.
#[derive(Debug, PartialEq, Eq, Structural)]
pub enum WitFileNameError {
    NotAString,
}

impl WitFileNameError {
    pub open spec fn spec_message(&self) -> Seq<char> {
        "If you want to specify name of the generated file, please input is as a String, otherwise do not input any attributes. \n Generated file will be 'generated.wit'"@
    }

    pub fn message(&self) -> (r: &'static str)
        ensures
            r@ == self.spec_message(),
    {
        "If you want to specify name of the generated file, please input is as a String, otherwise do not input any attributes. \n Generated file will be 'generated.wit'"
    }
}

/// `s` ends with `.wit`.
pub open spec fn ends_with_wit(s: Seq<char>) -> bool {
    s.len() >= 4 && s.subrange(s.len() - 4, s.len() as int) == ".wit"@
}

/// The file name: `generated.wit` without a literal, the string with `.wit`
/// appended unless it already ends with it, an error for another literal.
pub open spec fn wit_file_name_result(attr: WitFileAttr) -> Result<Seq<char>, WitFileNameError> {
    match attr {
        WitFileAttr::NoLiteral => Ok("generated.wit"@),
        WitFileAttr::Str(n) => Ok(
            if ends_with_wit(n@) {
                n@
            } else {
                n@ + ".wit"@
            },
        ),
        WitFileAttr::OtherLiteral => Err(WitFileNameError::NotAString),
    }
}

/// Whether `s` ends with `.wit`.
pub fn is_wit_file_name(s: &str) -> (r: bool)
    ensures
        r == ends_with_wit(s@),
{
    proof {
        reveal_strlit(".wit");
    }
    let chars = chars_of(s);
    let n: usize = chars.len();
    if n < 4 {
        return false;
    }
    let r = chars[n - 4] == '.' && chars[n - 3] == 'w' && chars[n - 2] == 'i' && chars[n - 1]
        == 't';
    proof {
        let sub = s@.subrange(n - 4, n as int);
        let w = ".wit"@;
        assert(w.len() == 4 && w[0] == '.' && w[1] == 'w' && w[2] == 'i' && w[3] == 't');
        if r {
            assert(sub =~= w);
        } else {
            assert(sub[0] != w[0] || sub[1] != w[1] || sub[2] != w[2] || sub[3] != w[3]);
            assert(sub != w);
        }
    }
    r
}

/// The name of the WIT file to write: see [`wit_file_name_result`].
pub fn wit_file_name(attr: &WitFileAttr) -> (r: Result<String, WitFileNameError>)
    ensures
        match (r, wit_file_name_result(*attr)) {
            (Ok(s), Ok(t)) => s@ == t,
            (Err(e), Err(f)) => e == f,
            _ => false,
        },
{
    match attr {
        WitFileAttr::NoLiteral => Ok(string_of("generated.wit")),
        WitFileAttr::Str(n) => {
            let mut name = string_of(n.as_str());
            if !is_wit_file_name(n.as_str()) {
                name.append(".wit");
            }
            Ok(name)
        },
        WitFileAttr::OtherLiteral => Err(WitFileNameError::NotAString),
    }
}

/// Every file name `create_wit_file` picks ends with `.wit`.
pub proof fn law_wit_file_name_ends_with_wit(attr: WitFileAttr)
    ensures
        wit_file_name_result(attr) matches Ok(name) ==> ends_with_wit(name),
{
    reveal_strlit(".wit");
    reveal_strlit("generated.wit");
    if let WitFileAttr::Str(n) = attr {
        let s = n@ + ".wit"@;
        assert(s.subrange(s.len() - 4, s.len() as int) =~= ".wit"@);
    }
    let g = "generated.wit"@;
    assert(g.subrange(g.len() - 4, g.len() as int) =~= ".wit"@);
}

/// Giving back a picked file name picks the same name again.
pub proof fn law_wit_file_name_idempotent(attr: WitFileAttr, again: WitFileAttr)
    requires
        wit_file_name_result(attr) matches Ok(name) && again matches WitFileAttr::Str(n) && n@
            == name,
    ensures
        wit_file_name_result(again) == wit_file_name_result(attr),
{
    law_wit_file_name_ends_with_wit(attr);
}

} // verus!
