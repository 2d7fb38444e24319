use vstd::prelude::*;

use crate::errors::AccessError;

verus! {

/// An ASCII decimal digit.
pub open spec fn is_digit(b: u8) -> bool {
    48 <= b <= 57
}

/// Every byte is a digit.
pub open spec fn all_digits(s: Seq<u8>) -> bool {
    forall|i: int| 0 <= i < s.len() ==> is_digit(#[trigger] s[i])
}

/// Some byte is a digit other than `0`.
pub open spec fn has_nonzero_digit(s: Seq<u8>) -> bool {
    exists|i: int| 0 <= i < s.len() && #[trigger] s[i] != 48
}

/// `dot` splits `s` into a non-empty run of digits and, unless `dot` is the
/// length, a `.` followed by another non-empty run of digits.
pub open spec fn decimal_shape(s: Seq<u8>, dot: int) -> bool {
    &&& 1 <= dot <= s.len()
    &&& all_digits(s.subrange(0, dot))
    &&& dot < s.len() ==> (s[dot] == 46 && dot + 1 < s.len() && all_digits(
        s.subrange(dot + 1, s.len() as int),
    ))
}

/// A ledger balance field this protocol interprets: a plain decimal
/// numeral, digits with at most one dot and digits on both of its sides.
pub open spec fn is_decimal(s: Seq<u8>) -> bool {
    exists|dot: int| decimal_shape(s, dot)
}

/// The decimal denotes at least one whole token: a digit of its integer
/// part is nonzero.
pub open spec fn decimal_ge_one(s: Seq<u8>) -> bool {
    exists|dot: int| #[trigger] decimal_shape(s, dot) && has_nonzero_digit(s.subrange(0, dot))
}

/// At most one split point fits a decimal.
pub proof fn lemma_shape_unique(s: Seq<u8>, d1: int, d2: int)
    requires
        decimal_shape(s, d1),
        decimal_shape(s, d2),
    ensures
        d1 == d2,
{
    if d1 < d2 {
        assert(is_digit(s.subrange(0, d2)[d1]));
        assert(s[d1] == 46);
    }
    if d2 < d1 {
        assert(is_digit(s.subrange(0, d1)[d2]));
        assert(s[d2] == 46);
    }
}

/// Interprets one balance field: `Some(b)` where `b` says whether the
/// balance is at least one whole token, or `None` if the field is not a
/// plain decimal numeral.  Malformation is never defaulted.
pub fn balance_ge_one(s: &Vec<u8>) -> (r: Option<bool>)
    ensures
        is_decimal(s@) ==> r == Some(decimal_ge_one(s@)),
        !is_decimal(s@) ==> r is None,
{
    let n = s.len();
    let mut i: usize = 0;
    let mut nonzero = false;
    let mut saw_dot = false;
    while i < n
        invariant_except_break
            i <= n,
            n == s@.len(),
            all_digits(s@.subrange(0, i as int)),
            nonzero == has_nonzero_digit(s@.subrange(0, i as int)),
            !saw_dot,
            forall|k: int| 0 <= k < i ==> s@[k] != 46,
        ensures
            i <= n,
            n == s@.len(),
            all_digits(s@.subrange(0, i as int)),
            nonzero == has_nonzero_digit(s@.subrange(0, i as int)),
            forall|k: int| 0 <= k < i ==> s@[k] != 46,
            saw_dot ==> i < n && s@[i as int] == 46,
            !saw_dot ==> i == n,
        decreases n - i,
    {
        let b = s[i];
        if b == 46 {
            saw_dot = true;
            break;
        }
        if b < 48 || b > 57 {
            proof {
                assert forall|d: int| !decimal_shape(s@, d) by {
                    if 1 <= d <= s@.len() {
                        if d <= i {
                            assert(s@[d] != 46);
                        } else {
                            assert(!is_digit(s@.subrange(0, d)[i as int]));
                        }
                    }
                }
            }
            return None;
        }
        if b != 48 {
            nonzero = true;
        }
        proof {
            let pre = s@.subrange(0, i as int);
            let cur = s@.subrange(0, i + 1);
            assert(cur =~= pre.push(s@[i as int]));
            if nonzero {
                if b != 48 {
                    assert(cur[i as int] != 48);
                } else {
                    let w = choose|k: int| 0 <= k < pre.len() && pre[k] != 48;
                    assert(cur[w] != 48);
                }
                assert(has_nonzero_digit(cur));
            } else {
                assert forall|k: int| 0 <= k < cur.len() implies cur[k] == 48 by {
                    if k < i {
                        assert(pre[k] == 48);
                    }
                }
                assert(!has_nonzero_digit(cur));
            }
        }
        i += 1;
    }
    if !saw_dot {
        if n == 0 {
            return None;
        }
        proof {
            assert(s@.subrange(0, n as int) =~= s@);
            assert(decimal_shape(s@, n as int));
            assert forall|d: int| decimal_shape(s@, d) implies d == n by {
                lemma_shape_unique(s@, d, n as int);
            }
        }
        return Some(nonzero);
    }
    // s[i] is the first dot
    if i == 0 {
        proof {
            assert forall|d: int| !decimal_shape(s@, d) by {
                if 1 <= d <= s@.len() {
                    assert(!is_digit(s@.subrange(0, d)[0]));
                }
            }
        }
        return None;
    }
    if n - i == 1 {
        proof {
            assert forall|d: int| !decimal_shape(s@, d) by {
                if 1 <= d <= s@.len() {
                    if d < i {
                        assert(s@[d] != 46);
                    } else if d == i {
                        assert(d + 1 == s@.len());
                    } else {
                        assert(!is_digit(s@.subrange(0, d)[i as int]));
                    }
                }
            }
        }
        return None;
    }
    let mut j: usize = i + 1;
    while j < n
        invariant
            1 <= i < n,
            i + 1 < n,
            i + 1 <= j <= n,
            n == s@.len(),
            s@[i as int] == 46,
            all_digits(s@.subrange(0, i as int)),
            nonzero == has_nonzero_digit(s@.subrange(0, i as int)),
            forall|k: int| 0 <= k < i ==> s@[k] != 46,
            all_digits(s@.subrange(i + 1, j as int)),
        decreases n - j,
    {
        let b = s[j];
        if b < 48 || b > 57 {
            proof {
                assert forall|d: int| !decimal_shape(s@, d) by {
                    if 1 <= d <= s@.len() {
                        if d < i {
                            assert(s@[d] != 46);
                        } else if d == i {
                            assert(!is_digit(s@.subrange(i + 1, s@.len() as int)[j - i - 1]));
                        } else {
                            assert(!is_digit(s@.subrange(0, d)[i as int]));
                        }
                    }
                }
            }
            return None;
        }
        proof {
            assert(s@.subrange(i + 1, j + 1) =~= s@.subrange(i + 1, j as int).push(
                s@[j as int],
            ));
        }
        j += 1;
    }
    proof {
        assert(s@.subrange(i + 1, n as int) =~= s@.subrange(i + 1, j as int));
        assert(decimal_shape(s@, i as int));
        assert forall|d: int| decimal_shape(s@, d) implies d == i by {
            lemma_shape_unique(s@, d, i as int);
        }
    }
    Some(nonzero)
}

/// Every balance field the ledger returned is well-formed.
pub open spec fn balances_wf(bs: Seq<Vec<u8>>) -> bool {
    forall|i: int| 0 <= i < bs.len() ==> is_decimal((#[trigger] bs[i])@)
}

/// Some account holds at least one whole token.
pub open spec fn owns_token(bs: Seq<Vec<u8>>) -> bool {
    exists|i: int| 0 <= i < bs.len() && decimal_ge_one((#[trigger] bs[i])@)
}

/// Ownership decision over the balances the ledger returned for the
/// requester's address and the record's mint: every field must be a
/// well-formed decimal — one malformed field is a hard failure — and
/// ownership holds exactly when some account has at least one whole token.
pub fn check_ownership(balances: &Vec<Vec<u8>>) -> (r: Result<bool, AccessError>)
    ensures
        r is Ok <==> balances_wf(balances@),
        r matches Ok(b) ==> b == owns_token(balances@),
        r is Err ==> r == Err::<bool, AccessError>(AccessError::MalformedBalance),
{
    let mut owns = false;
    let mut i: usize = 0;
    while i < balances.len()
        invariant
            i <= balances@.len(),
            forall|k: int| 0 <= k < i ==> is_decimal((#[trigger] balances@[k])@),
            owns == exists|k: int| 0 <= k < i && decimal_ge_one((#[trigger] balances@[k])@),
        decreases balances@.len() - i,
    {
        match balance_ge_one(&balances[i]) {
            None => {
                return Err(AccessError::MalformedBalance);
            },
            Some(b) => {
                if b {
                    owns = true;
                }
            },
        }
        i += 1;
    }
    Ok(owns)
}

} // verus!
