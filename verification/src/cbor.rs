//! A structural scan of CBOR: accepts a byte string exactly when it is one
//! complete, well-formed item whose strings are definite-length and whose
//! length encodings are none of the reserved forms. The scan reads nothing
//! into the data; it only walks item headers and payload lengths. The
//! transaction codec's deserializer unwraps some of its primitive reads, so
//! only bytes that pass this scan are handed to it: within a scanned item
//! every primitive read is in bounds and none of the rejected forms occurs.
//!
//! Rejected beyond ill-formed CBOR proper: indefinite-length byte and text
//! strings, and two-byte simple values below 32 — both forms the codec's
//! reader refuses — and trailing bytes after the item. Two further walks
//! cover the codec's unguarded spots. The item where it reads the body may
//! hold no empty byte string: the address reader indexes an address's
//! first byte without a check; this also turns away the empty asset name,
//! the one well-formed body ingredient of that shape. The item where it
//! reads the witness set may hold no major-7 item at any depth: the
//! witness-list readers abort on one that is not a break marker, and no
//! valid witness set holds any.

use vstd::prelude::*;

verus! {

/// One piece of pending work while walking nested items: a number of
/// complete items still owed, or items owed until a break marker.
pub enum Pending {
    Count(u64),
    UntilBreak,
}

/// The big-endian value of `n` bytes starting at `pos`.
pub open spec fn be_val(bytes: Seq<u8>, pos: int, n: int) -> nat
    recommends
        0 <= pos,
        pos + n <= bytes.len(),
    decreases n,
{
    if n <= 0 {
        0
    } else {
        be_val(bytes, pos, n - 1) * 256 + (bytes[pos + n - 1] as nat)
    }
}

pub open spec fn pow256(k: int) -> nat
    decreases k,
{
    if k <= 0 {
        1
    } else {
        256 * pow256(k - 1)
    }
}

proof fn lemma_be_val_bound(bytes: Seq<u8>, pos: int, n: int)
    requires
        0 <= n,
    ensures
        be_val(bytes, pos, n) < pow256(n),
    decreases n,
{
    if n > 0 {
        lemma_be_val_bound(bytes, pos, n - 1);
    }
}

proof fn lemma_pow256_le(a: int, b: int)
    requires
        0 <= a <= b,
    ensures
        pow256(a) <= pow256(b),
    decreases b,
{
    if a < b {
        lemma_pow256_le(a, b - 1);
    }
}

/// What the item header at `pos` means: where the header and any string
/// payload end, and what nested work it leaves behind. `None` when the
/// header is truncated, reserved, an indefinite-length string, a stray
/// break, a two-byte simple value below 32, or declares more content than
/// the input can hold (each nested item needs at least one byte). Under
/// `no_specials`, every major-7 item is refused as well; under `no_empty`,
/// every zero-length byte string.
pub open spec fn read_header(bytes: Seq<u8>, pos: int, no_specials: bool, no_empty: bool) -> Option<
    (int, Option<Pending>),
> {
    let len = bytes.len() as int;
    if pos < 0 || pos >= len {
        None
    } else {
        let major = bytes[pos] / 32;
        let ai = bytes[pos] % 32;
        if no_specials && major == 7 {
            None
        } else if no_empty && bytes[pos] == 0x40 {
            None
        } else if 28 <= ai && ai <= 30 {
            None
        } else if ai == 31 {
            if major == 4 || major == 5 {
                Some((pos + 1, Some(Pending::UntilBreak)))
            } else {
                None
            }
        } else {
            let extra: int = if ai < 24 {
                0
            } else if ai == 24 {
                1
            } else if ai == 25 {
                2
            } else if ai == 26 {
                4
            } else {
                8
            };
            if len - pos < 1 + extra {
                None
            } else {
                let arg: nat = if ai < 24 {
                    ai as nat
                } else {
                    be_val(bytes, pos + 1, extra)
                };
                let p2 = pos + 1 + extra;
                if major == 0 || major == 1 {
                    Some((p2, None))
                } else if major == 2 || major == 3 {
                    if arg > len - p2 {
                        None
                    } else {
                        Some((p2 + arg, None))
                    }
                } else if major == 4 {
                    if arg > len - p2 {
                        None
                    } else {
                        Some((p2, Some(Pending::Count(arg as u64))))
                    }
                } else if major == 5 {
                    if arg > (len - p2) / 2 {
                        None
                    } else {
                        Some((p2, Some(Pending::Count((arg * 2) as u64))))
                    }
                } else if major == 6 {
                    Some((p2, Some(Pending::Count(1u64))))
                } else {
                    if ai == 24 && arg < 32 {
                        None
                    } else {
                        Some((p2, None))
                    }
                }
            }
        }
    }
}

/// A read header always moves forward and stays inside the input.
pub proof fn lemma_read_header_advances(bytes: Seq<u8>, pos: int, no_specials: bool, no_empty: bool)
    ensures
        read_header(bytes, pos, no_specials, no_empty) is Some ==> ({
            let (p2, child) = read_header(bytes, pos, no_specials, no_empty)->0;
            pos < p2 <= bytes.len()
        }),
{
}

/// Walk the pending work from `pos` to the end of the last owed item:
/// `Some` of the position right after it, or `None` on any ill-formed or
/// rejected form on the way.
pub open spec fn scan(
    bytes: Seq<u8>,
    pos: int,
    stack: Seq<Pending>,
    no_specials: bool,
    no_empty: bool,
) -> Option<int>
    decreases bytes.len() - pos, stack.len(),
    when 0 <= pos <= bytes.len()
    via scan_dec
{
    if stack.len() == 0 {
        Some(pos)
    } else {
        match stack.last() {
            Pending::Count(n) => {
                if n == 0 {
                    scan(bytes, pos, stack.drop_last(), no_specials, no_empty)
                } else {
                    match read_header(bytes, pos, no_specials, no_empty) {
                        Option::None => None,
                        Option::Some((p2, child)) => {
                            let rest = stack.drop_last().push(Pending::Count((n - 1) as u64));
                            match child {
                                Option::None => scan(bytes, p2, rest, no_specials, no_empty),
                                Option::Some(c) => scan(bytes, p2, rest.push(c), no_specials, no_empty),
                            }
                        },
                    }
                }
            },
            Pending::UntilBreak => {
                if pos >= bytes.len() {
                    None
                } else if bytes[pos] == 0xFF {
                    scan(bytes, pos + 1, stack.drop_last(), no_specials, no_empty)
                } else {
                    match read_header(bytes, pos, no_specials, no_empty) {
                        Option::None => None,
                        Option::Some((p2, child)) => match child {
                            Option::None => scan(bytes, p2, stack, no_specials, no_empty),
                            Option::Some(c) => scan(bytes, p2, stack.push(c), no_specials, no_empty),
                        },
                    }
                }
            },
        }
    }
}

#[via_fn]
proof fn scan_dec(bytes: Seq<u8>, pos: int, stack: Seq<Pending>, no_specials: bool, no_empty: bool) {
    lemma_read_header_advances(bytes, pos, no_specials, no_empty);
}

/// A byte string that is exactly one well-formed CBOR item, nothing after
/// it, with definite-length strings and no reserved length encodings.
pub open spec fn cbor_well_formed(bytes: Seq<u8>) -> bool {
    scan(bytes, 0, seq![Pending::Count(1u64)], false, false) == Some(bytes.len() as int)
}

/// Whether the body and witness elements of the top-level container pass
/// their stricter walks. The first element — where the codec reads the
/// transaction body — must hold no zero-length byte string: the codec's
/// address reader indexes the first byte of an address unguarded. The
/// second element — the witness set — must hold no major-7 item at any
/// depth: the witness-list readers abort the process on one. Where the
/// walk does not apply (no container, no such element), the codec never
/// reaches those readers, and the answer is yes.
pub open spec fn tx_sections_ok(bytes: Seq<u8>) -> bool {
    match read_header(bytes, 0, false, false) {
        Option::None => true,
        Option::Some((p2, child)) => match child {
            Option::None => true,
            Option::Some(p) => {
                if !(0 <= p2 <= bytes.len()) {
                    true
                } else {
                    let has0 = match p {
                        Pending::Count(n) => n >= 1,
                        Pending::UntilBreak => p2 < bytes.len() && bytes[p2] != 0xFF,
                    };
                    let more = match p {
                        Pending::Count(n) => n >= 2,
                        Pending::UntilBreak => true,
                    };
                    if !has0 {
                        true
                    } else if scan(bytes, p2, seq![Pending::Count(1u64)], false, true) is None {
                        false
                    } else if !more {
                        true
                    } else {
                        match scan(bytes, p2, seq![Pending::Count(1u64)], false, false) {
                            Option::None => true,
                            Option::Some(e1) => {
                                if !(0 <= e1 < bytes.len()) {
                                    true
                                } else if bytes[e1] == 0xFF {
                                    true
                                } else {
                                    scan(bytes, e1, seq![Pending::Count(1u64)], true, false) is Some
                                }
                            },
                        }
                    }
                }
            },
        },
    }
}

fn read_header_exec(bytes: &Vec<u8>, pos: usize, no_specials: bool, no_empty: bool) -> (r: Option<
    (usize, Option<Pending>),
>)
    requires
        pos <= bytes@.len(),
    ensures
        (r is Some) == (read_header(bytes@, pos as int, no_specials, no_empty) is Some),
        r is Some ==> ({
            let (p2, child) = read_header(bytes@, pos as int, no_specials, no_empty)->0;
            let (q2, qchild) = r->0;
            q2 as int == p2 && qchild == child && pos < q2 && q2 <= bytes@.len()
        }),
{
    let len = bytes.len();
    if pos >= len {
        return None;
    }
    let b = bytes[pos];
    let major = b / 32;
    let ai = b % 32;
    if no_specials && major == 7 {
        return None;
    }
    if no_empty && b == 0x40 {
        return None;
    }
    if 28 <= ai && ai <= 30 {
        return None;
    }
    if ai == 31 {
        if major == 4 || major == 5 {
            return Some((pos + 1, Some(Pending::UntilBreak)));
        }
        return None;
    }
    let extra: usize = if ai < 24 {
        0
    } else if ai == 24 {
        1
    } else if ai == 25 {
        2
    } else if ai == 26 {
        4
    } else {
        8
    };
    if len - pos < 1 + extra {
        return None;
    }
    let mut arg: u64 = 0;
    let mut k: usize = 0;
    if ai < 24 {
        arg = ai as u64;
    } else {
        while k < extra
            invariant
                extra <= 8,
                k <= extra,
                bytes@.len() <= usize::MAX,
                pos + 1 + extra <= bytes@.len(),
                arg == be_val(bytes@, pos + 1, k as int),
            decreases extra - k,
        {
            proof {
                lemma_be_val_bound(bytes@, pos + 1 as int, k as int);
                lemma_pow256_le(k as int, 7);
                reveal_with_fuel(pow256, 9);
                assert(pow256(7) == 0x100_0000_0000_0000);
                assert(arg < 0x100_0000_0000_0000);
            }
            let idx = pos + 1 + k;
            let byte = bytes[idx];
            arg = arg * 256 + (byte as u64);
            k = k + 1;
        }
    }
    let p2 = pos + 1 + extra;
    if major == 0 || major == 1 {
        Some((p2, None))
    } else if major == 2 || major == 3 {
        if arg > (len - p2) as u64 {
            None
        } else {
            Some((p2 + arg as usize, None))
        }
    } else if major == 4 {
        if arg > (len - p2) as u64 {
            None
        } else {
            Some((p2, Some(Pending::Count(arg))))
        }
    } else if major == 5 {
        if arg > ((len - p2) / 2) as u64 {
            None
        } else {
            Some((p2, Some(Pending::Count(arg * 2))))
        }
    } else if major == 6 {
        Some((p2, Some(Pending::Count(1))))
    } else {
        if ai == 24 && arg < 32 {
            None
        } else {
            Some((p2, None))
        }
    }
}

/// Walk one item from `start`, as the scan describes it.
fn scan_from(bytes: &Vec<u8>, start: usize, no_specials: bool, no_empty: bool) -> (r: Option<
    usize,
>)
    requires
        start <= bytes@.len(),
    ensures
        (r is Some) == (scan(
            bytes@,
            start as int,
            seq![Pending::Count(1u64)],
            no_specials,
            no_empty,
        ) is Some),
        r is Some ==> r->0 as int == scan(
            bytes@,
            start as int,
            seq![Pending::Count(1u64)],
            no_specials,
            no_empty,
        )->0,
        r is Some ==> start <= r->0 <= bytes@.len(),
{
    let len = bytes.len();
    let mut pos: usize = start;
    let mut stack: Vec<Pending> = Vec::new();
    stack.push(Pending::Count(1));
    proof {
        assert(stack@ =~= seq![Pending::Count(1u64)]);
    }
    loop
        invariant
            len == bytes@.len(),
            start <= pos <= len,
            scan(bytes@, pos as int, stack@, no_specials, no_empty) == scan(
                bytes@,
                start as int,
                seq![Pending::Count(1u64)],
                no_specials,
                no_empty,
            ),
        decreases bytes@.len() - pos, stack@.len(),
    {
        if stack.len() == 0 {
            return Some(pos);
        }
        let ghost old_stack = stack@;
        let top = match stack.pop() {
            Option::Some(t) => t,
            Option::None => {
                return None;
            },
        };
        proof {
            assert(stack@ =~= old_stack.drop_last());
        }
        match top {
            Pending::Count(n) => {
                if n > 0 {
                    match read_header_exec(bytes, pos, no_specials, no_empty) {
                        Option::None => {
                            proof {
                                assert(scan(bytes@, pos as int, old_stack, no_specials, no_empty) is None);
                            }
                            return None;
                        },
                        Option::Some((p2, child)) => {
                            stack.push(Pending::Count(n - 1));
                            proof {
                                assert(stack@ =~= old_stack.drop_last().push(
                                    Pending::Count((n - 1) as u64),
                                ));
                            }
                            if let Option::Some(c) = child {
                                let ghost mid = stack@;
                                stack.push(c);
                                proof {
                                    assert(stack@ =~= mid.push(c));
                                }
                            }
                            pos = p2;
                        },
                    }
                }
            },
            Pending::UntilBreak => {
                if pos >= len {
                    proof {
                        assert(scan(bytes@, pos as int, old_stack, no_specials, no_empty) is None);
                    }
                    return None;
                }
                if bytes[pos] == 0xFF {
                    pos = pos + 1;
                } else {
                    match read_header_exec(bytes, pos, no_specials, no_empty) {
                        Option::None => {
                            proof {
                                assert(scan(bytes@, pos as int, old_stack, no_specials, no_empty) is None);
                            }
                            return None;
                        },
                        Option::Some((p2, child)) => {
                            stack.push(Pending::UntilBreak);
                            proof {
                                assert(stack@ =~= old_stack);
                            }
                            if let Option::Some(c) = child {
                                stack.push(c);
                                proof {
                                    assert(stack@ =~= old_stack.push(c));
                                }
                            }
                            pos = p2;
                        },
                    }
                }
            },
        }
    }
}

/// Check that the input is exactly one well-formed CBOR item.
pub fn check_well_formed(bytes: &Vec<u8>) -> (r: bool)
    ensures
        r == cbor_well_formed(bytes@),
{
    let len = bytes.len();
    match scan_from(bytes, 0, false, false) {
        Option::Some(e) => e == len,
        Option::None => false,
    }
}

/// Check that the input is one well-formed CBOR item whose body element
/// holds no empty byte string and whose witness-set element is free of
/// major-7 forms: exactly the bytes that are handed to the transaction
/// codec.
pub fn check_tx_bytes(bytes: &Vec<u8>) -> (r: bool)
    ensures
        r == (cbor_well_formed(bytes@) && tx_sections_ok(bytes@)),
{
    let len = bytes.len();
    match scan_from(bytes, 0, false, false) {
        Option::Some(e) => {
            if e != len {
                return false;
            }
        },
        Option::None => {
            return false;
        },
    }
    match read_header_exec(bytes, 0, false, false) {
        Option::None => true,
        Option::Some((p2, child)) => match child {
            Option::None => true,
            Option::Some(p) => {
                let has0 = match p {
                    Pending::Count(n) => n >= 1,
                    Pending::UntilBreak => p2 < len && bytes[p2] != 0xFF,
                };
                let more = match p {
                    Pending::Count(n) => n >= 2,
                    Pending::UntilBreak => true,
                };
                if !has0 {
                    return true;
                }
                if scan_from(bytes, p2, false, true).is_none() {
                    return false;
                }
                if !more {
                    return true;
                }
                match scan_from(bytes, p2, false, false) {
                    Option::None => true,
                    Option::Some(e1) => {
                        if e1 >= len {
                            return true;
                        }
                        if bytes[e1] == 0xFF {
                            return true;
                        }
                        match scan_from(bytes, e1, true, false) {
                            Option::Some(_) => true,
                            Option::None => false,
                        }
                    },
                }
            },
        },
    }
}

} // verus!
