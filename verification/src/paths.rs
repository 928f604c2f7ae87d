//! Canonical names used by the protocol: the decimal rendering of a
//! version number, the `base@version` form that identifies a record in
//! error reports, and the canonical object path for a version's manifest.

use vstd::prelude::*;
use vstd::string::StringExecFns;

verus! {

/// The decimal digit character for `d`, defined for `d < 10`.
pub open spec fn dec_digit(d: nat) -> char {
    if d == 0 {
        '0'
    } else if d == 1 {
        '1'
    } else if d == 2 {
        '2'
    } else if d == 3 {
        '3'
    } else if d == 4 {
        '4'
    } else if d == 5 {
        '5'
    } else if d == 6 {
        '6'
    } else if d == 7 {
        '7'
    } else if d == 8 {
        '8'
    } else {
        '9'
    }
}

/// The decimal digits of `v`, most significant first, with no leading
/// zeros (a single `'0'` for zero itself).
pub open spec fn dec_digits(v: nat) -> Seq<char>
    decreases v,
{
    if v < 10 {
        seq![dec_digit(v)]
    } else {
        dec_digits(v / 10).push(dec_digit(v % 10))
    }
}

/// The `base@version` form naming one record of one dataset.
pub open spec fn spec_version_uri(base: Seq<char>, version: u64) -> Seq<char> {
    base + "@"@ + dec_digits(version as nat)
}

/// The canonical object path for the manifest of `(base, version)`.
pub open spec fn spec_manifest_path(base: Seq<char>, version: u64) -> Seq<char> {
    base + "/_versions/"@ + dec_digits(version as nat) + ".manifest"@
}

fn digit_str(d: u64) -> (r: &'static str)
    requires
        d < 10,
    ensures
        r@ == seq![dec_digit(d as nat)],
{
    if d == 0 {
        proof {
            reveal_strlit("0");
            assert("0"@ =~= seq![dec_digit(0)]);
        }
        "0"
    } else if d == 1 {
        proof {
            reveal_strlit("1");
            assert("1"@ =~= seq![dec_digit(1)]);
        }
        "1"
    } else if d == 2 {
        proof {
            reveal_strlit("2");
            assert("2"@ =~= seq![dec_digit(2)]);
        }
        "2"
    } else if d == 3 {
        proof {
            reveal_strlit("3");
            assert("3"@ =~= seq![dec_digit(3)]);
        }
        "3"
    } else if d == 4 {
        proof {
            reveal_strlit("4");
            assert("4"@ =~= seq![dec_digit(4)]);
        }
        "4"
    } else if d == 5 {
        proof {
            reveal_strlit("5");
            assert("5"@ =~= seq![dec_digit(5)]);
        }
        "5"
    } else if d == 6 {
        proof {
            reveal_strlit("6");
            assert("6"@ =~= seq![dec_digit(6)]);
        }
        "6"
    } else if d == 7 {
        proof {
            reveal_strlit("7");
            assert("7"@ =~= seq![dec_digit(7)]);
        }
        "7"
    } else if d == 8 {
        proof {
            reveal_strlit("8");
            assert("8"@ =~= seq![dec_digit(8)]);
        }
        "8"
    } else {
        proof {
            reveal_strlit("9");
            assert("9"@ =~= seq![dec_digit(9)]);
        }
        "9"
    }
}

/// Renders `v` in decimal, most significant digit first.
pub fn fmt_u64(v: u64) -> (r: String)
    ensures
        r@ == dec_digits(v as nat),
    decreases v,
{
    if v < 10 {
        String::from_str(digit_str(v))
    } else {
        let prefix = fmt_u64(v / 10);
        let r = prefix.concat(digit_str(v % 10));
        proof {
            assert(r@ =~= dec_digits((v as nat) / 10).push(dec_digit((v as nat) % 10)));
        }
        r
    }
}

/// Renders the `base@version` form naming one record of one dataset.
pub fn version_uri(base_uri: &str, version: u64) -> (r: String)
    ensures
        r@ == spec_version_uri(base_uri@, version),
{
    let digits = fmt_u64(version);
    let r = String::from_str(base_uri).concat("@").concat(digits.as_str());
    proof {
        assert(r@ =~= spec_version_uri(base_uri@, version));
    }
    r
}

/// Renders the canonical object path for the manifest of
/// `(base_uri, version)`.
pub fn manifest_path(base_uri: &str, version: u64) -> (r: String)
    ensures
        r@ == spec_manifest_path(base_uri@, version),
{
    let digits = fmt_u64(version);
    let r = String::from_str(base_uri).concat("/_versions/").concat(digits.as_str()).concat(
        ".manifest",
    );
    proof {
        assert(r@ =~= spec_manifest_path(base_uri@, version));
    }
    r
}

} // verus!
