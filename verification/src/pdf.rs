//! Password generation for the PDF export's encryption collaborator.

use vstd::prelude::*;
use vstd::string::*;

verus! {

/// The characters a generated password may use: letters and digits without
/// the easily confused ones, and a few symbols.
pub open spec fn spec_password_charset() -> Seq<char> {
    "ABCDEFGHJKLMNPQRSTUVWXYZabcdefghijkmnpqrstuvwxyz23456789!@#$%"@
}

/// Relies on `rand::thread_rng` and `Rng::gen_range`: an index drawn below
/// the bound; nothing more is assumed of it.
#[verifier::external_body]
fn random_index(bound: usize) -> (r: usize)
    requires
        bound >= 1,
    ensures
        r < bound,
{
    rand::Rng::gen_range(&mut rand::thread_rng(), 0..bound)
}

/// Generate a sixteen-character password over the fixed character set.
#[verifier::loop_isolation(false)]
pub fn generate_secure_password() -> (r: String)
    ensures
        r@.len() == 16,
        forall|i: int| 0 <= i < 16 ==> spec_password_charset().contains(#[trigger] r@[i]),
{
    let charset = crate::text::to_chars(
        "ABCDEFGHJKLMNPQRSTUVWXYZabcdefghijkmnpqrstuvwxyz23456789!@#$%",
    );
    proof {
        reveal_strlit("ABCDEFGHJKLMNPQRSTUVWXYZabcdefghijkmnpqrstuvwxyz23456789!@#$%");
    }
    let mut out: Vec<char> = Vec::new();
    let mut i: usize = 0;
    while i < 16
        invariant
            i <= 16,
            out@.len() == i,
            charset@ == spec_password_charset(),
            charset@.len() >= 1,
            forall|j: int| 0 <= j < i ==> spec_password_charset().contains(#[trigger] out@[j]),
        decreases 16 - i,
    {
        let idx = random_index(charset.len());
        let c = charset[idx];
        proof {
            assert(spec_password_charset()[idx as int] == c);
            assert(spec_password_charset().contains(c));
        }
        out.push(c);
        i += 1;
    }
    crate::text::from_chars(&out)
}

} // verus!
