//! Whether a compositing manager is active on a screen: the name of the
//! selection it owns, and the verdict drawn from that selection's owner.
use vstd::prelude::*;

verus! {

/// The null resource id.
pub const NONE: u32 = 0;

/// The decimal digits of `n`, most significant first, as ASCII bytes.
pub open spec fn decimal(n: nat) -> Seq<u8>
    decreases n,
{
    if n < 10 {
        seq![(48 + n) as u8]
    } else {
        decimal(n / 10).push((48 + n % 10) as u8)
    }
}

/// `_NET_WM_CM_S` as ASCII bytes.
pub open spec fn selection_prefix() -> Seq<u8> {
    seq![95u8, 78, 69, 84, 95, 87, 77, 95, 67, 77, 95, 83]
}

/// Name of the selection that the compositing manager of screen `screen`
/// owns: `_NET_WM_CM_S` followed by the screen number in decimal.
pub open spec fn selection_name(screen: nat) -> Seq<u8> {
    selection_prefix() + decimal(screen)
}

fn push_decimal(out: &mut Vec<u8>, n: usize)
    ensures
        final(out)@ == old(out)@ + decimal(n as nat),
    decreases n,
{
    if n >= 10 {
        push_decimal(out, n / 10);
    }
    let digit: u8 = (n % 10) as u8;
    out.push(48 + digit);
    assert(final(out)@ =~= old(out)@ + decimal(n as nat));
}

/// The name of screen `screen_num`'s compositing selection, as the bytes to
/// intern.
pub fn compositor_selection(screen_num: usize) -> (r: Vec<u8>)
    ensures
        r@ == selection_name(screen_num as nat),
{
    let mut out: Vec<u8> = vec![95u8, 78, 69, 84, 95, 87, 77, 95, 67, 77, 95, 83];
    assert(out@ =~= selection_prefix());
    push_decimal(&mut out, screen_num);
    out
}

/// The probe's verdict. `atom` is the interned selection atom, `None` where
/// it could not be interned; `owner` is the selection's owner, `None` where
/// asking for it failed. An atom that could not be interned, or the null
/// atom, means no manager runs (`Some(false)`). With a real atom, a failed
/// owner query is an error (`None`); else a manager runs iff the owner is not
/// the null id.
pub fn composite_manager_running(atom: Option<u32>, owner: Option<u32>) -> (r: Option<bool>)
    ensures
        (atom matches Some(a) && a != NONE) ==> r == match owner {
            Some(o) => Some(o != NONE),
            None => None,
        },
        !(atom matches Some(a) && a != NONE) ==> r == Some(false),
{
    match atom {
        Some(a) => {
            if a == NONE {
                Some(false)
            } else {
                match owner {
                    Some(o) => Some(o != NONE),
                    None => None,
                }
            }
        },
        None => Some(false),
    }
}

/// The lowest major version of the region extension that the overlay
/// needs; any minor version of it will do.
pub const XFIXES_MAJOR_REQUIRED: u32 = 5;

/// Whether the region extension version `(major, minor)` that the server
/// reports is at least 5.0.
pub fn xfixes_version_supported(major: u32, minor: u32) -> (r: bool)
    ensures
        r == (major >= XFIXES_MAJOR_REQUIRED),
{
    major >= XFIXES_MAJOR_REQUIRED
}

} // verus!
