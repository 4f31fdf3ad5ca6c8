//! Adapter normalization: the translation of raw compositor payloads
//! into typed messages. Workspace identifiers arrive as byte strings and
//! must spell a number in `1..=n`; a named (non-numeric) workspace is
//! dropped for the workspace lifecycle events and is an unrecoverable
//! fault for the window events, whose numeric contract the compositor
//! guarantees. Identifiers outside the range are always faults: the
//! reducer never sees one.

use vstd::prelude::*;

use crate::msg::{Fault, Msg};

verus! {

/// `b` is an ASCII decimal digit.
pub open spec fn is_digit(b: u8) -> bool {
    48 <= b <= 57
}

/// `s` spells one or more ASCII decimal digits.
pub open spec fn all_digits(s: Seq<u8>) -> bool {
    s.len() > 0 && forall|i: int| 0 <= i < s.len() ==> is_digit(#[trigger] s[i])
}

/// The number the digits spell in base ten.
pub open spec fn dec_value(s: Seq<u8>) -> int
    decreases s.len(),
{
    if s.len() == 0 {
        0
    } else {
        dec_value(s.drop_last()) * 10 + (s.last() - 48)
    }
}

/// A digit string never spells a negative number.
proof fn lemma_dec_value_nonneg(s: Seq<u8>)
    requires
        forall|i: int| 0 <= i < s.len() ==> is_digit(#[trigger] s[i]),
    ensures
        dec_value(s) >= 0,
    decreases s.len(),
{
    if s.len() > 0 {
        lemma_dec_value_nonneg(s.drop_last());
    }
}

/// `b` is an ASCII hexadecimal digit.
pub open spec fn is_hex_digit(b: u8) -> bool {
    (48 <= b <= 57) || (97 <= b <= 102) || (65 <= b <= 70)
}

/// The value of one hexadecimal digit.
pub open spec fn hex_digit_value(b: u8) -> int {
    if 48 <= b <= 57 {
        b - 48
    } else if 97 <= b <= 102 {
        b - 87
    } else {
        b - 55
    }
}

/// `s` spells one or more ASCII hexadecimal digits.
pub open spec fn all_hex_digits(s: Seq<u8>) -> bool {
    s.len() > 0 && forall|i: int| 0 <= i < s.len() ==> is_hex_digit(#[trigger] s[i])
}

/// The number the digits spell in base sixteen.
pub open spec fn hex_value(s: Seq<u8>) -> int
    decreases s.len(),
{
    if s.len() == 0 {
        0
    } else {
        hex_value(s.drop_last()) * 16 + hex_digit_value(s.last())
    }
}

/// Sixteen to the `k`th power.
pub open spec fn pow16(k: int) -> int
    decreases k,
{
    if k <= 0 {
        1
    } else {
        16 * pow16(k - 1)
    }
}

proof fn lemma_pow16_pos(k: int)
    ensures
        pow16(k) >= 1,
    decreases k,
{
    if k > 0 {
        lemma_pow16_pos(k - 1);
    }
}

proof fn lemma_pow16_monotone(a: int, b: int)
    requires
        0 <= a <= b,
    ensures
        pow16(a) <= pow16(b),
    decreases b,
{
    if a < b {
        lemma_pow16_monotone(a, b - 1);
        lemma_pow16_pos(b - 1);
    }
}

/// A string of `k` hexadecimal digits spells a number below sixteen to
/// the `k`th.
proof fn lemma_hex_value_bound(s: Seq<u8>)
    requires
        forall|i: int| 0 <= i < s.len() ==> is_hex_digit(#[trigger] s[i]),
    ensures
        0 <= hex_value(s) < pow16(s.len() as int),
    decreases s.len(),
{
    if s.len() > 0 {
        lemma_hex_value_bound(s.drop_last());
    }
}

/// The digits of a raw address: what follows a `0x` or `0X` prefix, or
/// the whole string when there is none.
pub open spec fn hex_body(s: Seq<u8>) -> Seq<u8> {
    if s.len() >= 2 && s[0] == 48 && (s[1] == 120 || s[1] == 88) {
        s.subrange(2, s.len() as int)
    } else {
        s
    }
}

/// Parse a compositor window address: hexadecimal digits, optionally
/// after a `0x` prefix, at most sixteen of them so the value fits the
/// address word. The translation is lossless: equal results come only
/// from equal addresses.
pub fn parse_address(s: &[u8]) -> (r: Option<u64>)
    ensures
        (r matches Some(v) <==> all_hex_digits(hex_body(s@)) && hex_body(s@).len() <= 16),
        r matches Some(v) ==> v as int == hex_value(hex_body(s@)),
{
    let mut start: usize = 0;
    if s.len() >= 2 && s[0] == 48 && (s[1] == 120 || s[1] == 88) {
        start = 2;
    }
    proof {
        assert(hex_body(s@) =~= s@.subrange(start as int, s@.len() as int));
    }
    if s.len() == start {
        return None;
    }
    if s.len() - start > 16 {
        return None;
    }
    let mut i: usize = start;
    let mut acc: u64 = 0;
    while i < s.len()
        invariant
            start <= i <= s@.len(),
            s@.len() - start <= 16,
            hex_body(s@) == s@.subrange(start as int, s@.len() as int),
            forall|j: int| start as int <= j < i as int ==> is_hex_digit(#[trigger] s@[j]),
            acc as int == hex_value(s@.subrange(start as int, i as int)),
        decreases s@.len() - i,
    {
        let b = s[i];
        let d: u8 = if b >= 48 && b <= 57 {
            b - 48
        } else if b >= 97 && b <= 102 {
            b - 87
        } else if b >= 65 && b <= 70 {
            b - 55
        } else {
            proof {
                assert(!is_hex_digit(s@[i as int]));
                assert(hex_body(s@)[i as int - start as int] == s@[i as int]);
            }
            return None;
        };
        let ghost p = s@.subrange(start as int, i as int);
        let ghost p2 = s@.subrange(start as int, i as int + 1);
        proof {
            assert(p2.drop_last() =~= p);
            assert(p2.last() == s@[i as int]);
            assert(is_hex_digit(s@[i as int]));
            assert(hex_digit_value(s@[i as int]) == d as int);
            lemma_hex_value_bound(p);
            lemma_pow16_monotone(i as int - start as int, 15);
            assert(pow16(15) == 0x1000000000000000) by {
                reveal_with_fuel(pow16, 16);
            }
            assert(acc as int <= 0x1000000000000000 - 1);
        }
        acc = acc * 16 + (d as u64);
        proof {
            assert(acc as int == hex_value(p2));
        }
        i += 1;
    }
    proof {
        assert(s@.subrange(start as int, s@.len() as int) =~= hex_body(s@));
        assert(all_hex_digits(hex_body(s@)));
    }
    Some(acc)
}

/// What a raw workspace identifier means against the bound `n`.
#[derive(Debug, PartialEq, Eq)]
pub enum ParsedId {
    Valid(usize),
    OutOfRange,
    NotNumeric,
}

/// Parse a raw workspace identifier: the number its digits spell when it
/// is numeric and lies in `1..=n`, and the exact reason otherwise.
pub fn parse_workspace_id(s: &[u8], n: usize) -> (r: ParsedId)
    requires
        1 <= n,
    ensures
        (r == ParsedId::NotNumeric <==> !all_digits(s@)),
        (r == ParsedId::OutOfRange <==> all_digits(s@) && !(1 <= dec_value(s@) <= n as int)),
        all_digits(s@) && 1 <= dec_value(s@) <= n as int ==> r == ParsedId::Valid(
            dec_value(s@) as usize,
        ),
{
    if s.len() == 0 {
        return ParsedId::NotNumeric;
    }
    let mut i: usize = 0;
    let mut acc: u128 = 0;
    let mut over = false;
    while i < s.len()
        invariant
            1 <= n,
            i <= s@.len(),
            forall|j: int| 0 <= j < i as int ==> is_digit(#[trigger] s@[j]),
            over <==> dec_value(s@.subrange(0, i as int)) > n as int,
            !over ==> acc as int == dec_value(s@.subrange(0, i as int)) && acc <= n as u128,
        decreases s@.len() - i,
    {
        let b = s[i];
        if b < 48 || b > 57 {
            proof {
                assert(!is_digit(s@[i as int]));
            }
            return ParsedId::NotNumeric;
        }
        let ghost p = s@.subrange(0, i as int);
        let ghost p2 = s@.subrange(0, i as int + 1);
        proof {
            assert(p2.drop_last() =~= p);
            assert(p2.last() == s@[i as int]);
            lemma_dec_value_nonneg(p);
            assert(dec_value(p2) == dec_value(p) * 10 + (s@[i as int] - 48));
        }
        if !over {
            acc = acc * 10 + ((b - 48) as u128);
            if acc > n as u128 {
                over = true;
            }
        }
        i += 1;
    }
    proof {
        assert(s@.subrange(0, s@.len() as int) =~= s@);
    }
    if over {
        return ParsedId::OutOfRange;
    }
    if acc < 1 {
        return ParsedId::OutOfRange;
    }
    ParsedId::Valid(acc as usize)
}

/// Normalize a workspace-created event. A named workspace is dropped; an
/// out-of-range number is a fault.
pub fn normalize_workspace_added(name: &[u8], n: usize) -> (r: Result<Option<Msg>, Fault>)
    requires
        1 <= n,
    ensures
        !all_digits(name@) ==> r == Ok::<Option<Msg>, Fault>(None),
        all_digits(name@) && !(1 <= dec_value(name@) <= n as int) ==> r == Err::<
            Option<Msg>,
            Fault,
        >(Fault::WorkspaceOutOfRange),
        all_digits(name@) && 1 <= dec_value(name@) <= n as int ==> r == Ok::<Option<Msg>, Fault>(
            Some(Msg::WorkspaceCreated(dec_value(name@) as usize)),
        ),
        r matches Ok(Some(m)) ==> crate::msg::msg_in_range(m@, n as int),
{
    match parse_workspace_id(name, n) {
        ParsedId::Valid(id) => Ok(Some(Msg::WorkspaceCreated(id))),
        ParsedId::OutOfRange => Err(Fault::WorkspaceOutOfRange),
        ParsedId::NotNumeric => Ok(None),
    }
}

/// Normalize a workspace-destroyed event, as [`normalize_workspace_added`].
pub fn normalize_workspace_destroyed(name: &[u8], n: usize) -> (r: Result<Option<Msg>, Fault>)
    requires
        1 <= n,
    ensures
        !all_digits(name@) ==> r == Ok::<Option<Msg>, Fault>(None),
        all_digits(name@) && !(1 <= dec_value(name@) <= n as int) ==> r == Err::<
            Option<Msg>,
            Fault,
        >(Fault::WorkspaceOutOfRange),
        all_digits(name@) && 1 <= dec_value(name@) <= n as int ==> r == Ok::<Option<Msg>, Fault>(
            Some(Msg::WorkspaceDestroyed(dec_value(name@) as usize)),
        ),
        r matches Ok(Some(m)) ==> crate::msg::msg_in_range(m@, n as int),
{
    match parse_workspace_id(name, n) {
        ParsedId::Valid(id) => Ok(Some(Msg::WorkspaceDestroyed(id))),
        ParsedId::OutOfRange => Err(Fault::WorkspaceOutOfRange),
        ParsedId::NotNumeric => Ok(None),
    }
}

/// Normalize an active-workspace-changed event, as
/// [`normalize_workspace_added`].
pub fn normalize_workspace_changed(name: &[u8], n: usize) -> (r: Result<Option<Msg>, Fault>)
    requires
        1 <= n,
    ensures
        !all_digits(name@) ==> r == Ok::<Option<Msg>, Fault>(None),
        all_digits(name@) && !(1 <= dec_value(name@) <= n as int) ==> r == Err::<
            Option<Msg>,
            Fault,
        >(Fault::WorkspaceOutOfRange),
        all_digits(name@) && 1 <= dec_value(name@) <= n as int ==> r == Ok::<Option<Msg>, Fault>(
            Some(Msg::ActiveWorkspaceChanged(dec_value(name@) as usize)),
        ),
        r matches Ok(Some(m)) ==> crate::msg::msg_in_range(m@, n as int),
{
    match parse_workspace_id(name, n) {
        ParsedId::Valid(id) => Ok(Some(Msg::ActiveWorkspaceChanged(id))),
        ParsedId::OutOfRange => Err(Fault::WorkspaceOutOfRange),
        ParsedId::NotNumeric => Ok(None),
    }
}

/// Normalize a window-opened event. The compositor guarantees a numeric
/// workspace here, so a non-numeric one is a fault, not a drop.
pub fn normalize_window_opened(addr: u64, class: String, ws_name: &[u8], n: usize) -> (r: Result<
    Msg,
    Fault,
>)
    requires
        1 <= n,
    ensures
        !all_digits(ws_name@) ==> r == Err::<Msg, Fault>(Fault::NonNumericWorkspace),
        all_digits(ws_name@) && !(1 <= dec_value(ws_name@) <= n as int) ==> r == Err::<Msg, Fault>(
            Fault::WorkspaceOutOfRange,
        ),
        all_digits(ws_name@) && 1 <= dec_value(ws_name@) <= n as int ==> (r matches Ok(m) && m@
            == crate::msg::MsgView::WindowOpened {
            addr,
            class: class@,
            id: dec_value(ws_name@),
        }),
        r matches Ok(m) ==> crate::msg::msg_in_range(m@, n as int),
{
    match parse_workspace_id(ws_name, n) {
        ParsedId::Valid(id) => Ok(Msg::WindowOpened(addr, class, id)),
        ParsedId::OutOfRange => Err(Fault::WorkspaceOutOfRange),
        ParsedId::NotNumeric => Err(Fault::NonNumericWorkspace),
    }
}

/// Normalize a window-moved event, as [`normalize_window_opened`].
pub fn normalize_window_moved(addr: u64, ws_name: &[u8], n: usize) -> (r: Result<Msg, Fault>)
    requires
        1 <= n,
    ensures
        !all_digits(ws_name@) ==> r == Err::<Msg, Fault>(Fault::NonNumericWorkspace),
        all_digits(ws_name@) && !(1 <= dec_value(ws_name@) <= n as int) ==> r == Err::<Msg, Fault>(
            Fault::WorkspaceOutOfRange,
        ),
        all_digits(ws_name@) && 1 <= dec_value(ws_name@) <= n as int ==> r == Ok::<Msg, Fault>(
            Msg::WindowMoved(addr, dec_value(ws_name@) as usize),
        ),
        r matches Ok(m) ==> crate::msg::msg_in_range(m@, n as int),
{
    match parse_workspace_id(ws_name, n) {
        ParsedId::Valid(id) => Ok(Msg::WindowMoved(addr, id)),
        ParsedId::OutOfRange => Err(Fault::WorkspaceOutOfRange),
        ParsedId::NotNumeric => Err(Fault::NonNumericWorkspace),
    }
}

} // verus!
