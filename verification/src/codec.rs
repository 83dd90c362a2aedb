//! Canonical wire codec for orders.
//!
//! An order travels as one self-describing record with named fields, in a
//! fixed canonical shape:
//!
//! ```text
//! {"order_id":"ID","order_type":"buy","amount":A,"price":P}
//! ```
//!
//! where `ID` is the order id (printable ASCII, no quote or backslash),
//! the type is `buy` or `sell`, and `A`, `P` are positive decimal integers
//! without leading zeros.  `encode_order` is total on well-formed orders;
//! `decode_order` accepts exactly the canonical encodings and reports
//! `MalformedMessage` on every other byte sequence.

use vstd::prelude::*;
use vstd::string::StrSliceExecFns;

use crate::errors::TransportError;
use crate::order::{id_char_ok, valid_id, wf_order, Order, OrderModel, OrderType};

verus! {

/// Bytes of an ASCII character sequence, one byte per character.
pub open spec fn ascii_bytes(s: Seq<char>) -> Seq<u8> {
    Seq::new(s.len(), |i: int| s[i] as u8)
}

/// Characters of a byte sequence, one character per byte.
pub open spec fn chars_of(b: Seq<u8>) -> Seq<char> {
    Seq::new(b.len(), |i: int| b[i] as char)
}

/// The opening bytes of a record: `{"order_id":"`.
pub open spec fn lit_prefix() -> Seq<u8> {
    seq![123u8, 34u8, 111u8, 114u8, 100u8, 101u8, 114u8, 95u8, 105u8, 100u8, 34u8, 58u8, 34u8]
}

/// The bytes between id and type: `","order_type":"`.
pub open spec fn lit_type() -> Seq<u8> {
    seq![
        34u8, 44u8, 34u8, 111u8, 114u8, 100u8, 101u8, 114u8, 95u8, 116u8, 121u8, 112u8, 101u8,
        34u8, 58u8, 34u8,
    ]
}

/// The bytes between type and amount: `","amount":`.
pub open spec fn lit_amount() -> Seq<u8> {
    seq![34u8, 44u8, 34u8, 97u8, 109u8, 111u8, 117u8, 110u8, 116u8, 34u8, 58u8]
}

/// The bytes between amount and price: `,"price":`.
pub open spec fn lit_price() -> Seq<u8> {
    seq![44u8, 34u8, 112u8, 114u8, 105u8, 99u8, 101u8, 34u8, 58u8]
}

/// The bytes of the order type field: `buy` or `sell`.
pub open spec fn type_bytes(t: OrderType) -> Seq<u8> {
    match t {
        OrderType::Buy => seq![98u8, 117u8, 121u8],
        OrderType::Sell => seq![115u8, 101u8, 108u8, 108u8],
    }
}

/// Canonical decimal digits of `n`, most significant first, no leading zeros.
pub open spec fn dec_digits(n: nat) -> Seq<u8>
    decreases n,
{
    if n < 10 {
        seq![(48 + n) as u8]
    } else {
        dec_digits(n / 10) + seq![(48 + n % 10) as u8]
    }
}

/// The canonical encoding of an order.
pub open spec fn spec_encode(o: OrderModel) -> Seq<u8> {
    lit_prefix() + ascii_bytes(o.id) + lit_type() + type_bytes(o.order_type) + lit_amount()
        + dec_digits(o.amount as nat) + lit_price() + dec_digits(o.price as nat) + seq![125u8]
}

pub open spec fn is_digit(b: u8) -> bool {
    48 <= b <= 57
}

/// Bytes an order id may hold on the wire.
pub open spec fn id_byte_ok(b: u8) -> bool {
    &&& 0x20 <= b <= 0x7e
    &&& b != 34
    &&& b != 92
}

pub open spec fn valid_id_bytes(s: Seq<u8>) -> bool {
    forall|i: int| 0 <= i < s.len() ==> id_byte_ok(#[trigger] s[i])
}

/// Position of the first quote byte at or after `i`, or `s.len()` if none.
pub open spec fn quote_end(s: Seq<u8>, i: int) -> int
    decreases s.len() - i,
{
    if i < s.len() {
        if s[i] == 34 {
            i
        } else {
            quote_end(s, i + 1)
        }
    } else {
        i
    }
}

/// Position just past the run of digit bytes starting at `i`.
pub open spec fn digit_run_end(s: Seq<u8>, i: int) -> int
    decreases s.len() - i,
{
    if i < s.len() && is_digit(s[i]) {
        digit_run_end(s, i + 1)
    } else {
        i
    }
}

/// Value of a digit sequence read as a decimal number.
pub open spec fn fold_digits(d: Seq<u8>) -> int
    decreases d.len(),
{
    if d.len() == 0 {
        0
    } else {
        fold_digits(d.drop_last()) * 10 + (d.last() - 48)
    }
}

/// A canonical decimal number: at least one digit, no leading zero.
pub open spec fn canonical_digits(d: Seq<u8>) -> bool {
    &&& d.len() >= 1
    &&& forall|i: int| 0 <= i < d.len() ==> is_digit(#[trigger] d[i])
    &&& d.len() > 1 ==> d[0] != 48
}

/// The reference parser: `Some` exactly on canonical encodings of
/// well-formed orders. Stage one: opening literal and the id field.
pub open spec fn spec_decode(s: Seq<u8>) -> Option<OrderModel> {
    if s.len() < 13 || s.subrange(0, 13) != lit_prefix() {
        None
    } else {
        let q = quote_end(s, 13);
        if q >= s.len() || !valid_id_bytes(s.subrange(13, q)) {
            None
        } else {
            spec_decode_type(s, q, chars_of(s.subrange(13, q)))
        }
    }
}

/// Stage two: the type literal and the buy/sell tag.
pub open spec fn spec_decode_type(s: Seq<u8>, i: int, id: Seq<char>) -> Option<OrderModel> {
    if i + 16 > s.len() || s.subrange(i, i + 16) != lit_type() {
        None
    } else if i + 19 <= s.len() && s.subrange(i + 16, i + 19) == type_bytes(OrderType::Buy) {
        spec_decode_nums(s, i + 19, id, OrderType::Buy)
    } else if i + 20 <= s.len() && s.subrange(i + 16, i + 20) == type_bytes(OrderType::Sell) {
        spec_decode_nums(s, i + 20, id, OrderType::Sell)
    } else {
        None
    }
}

/// Stage three: amount, price and the closing brace.
pub open spec fn spec_decode_nums(s: Seq<u8>, i: int, id: Seq<char>, t: OrderType) -> Option<
    OrderModel,
> {
    if i + 11 > s.len() || s.subrange(i, i + 11) != lit_amount() {
        None
    } else {
        let ae = digit_run_end(s, i + 11);
        let ad = s.subrange(i + 11, ae);
        if !canonical_digits(ad) || !(0 < fold_digits(ad) <= u64::MAX) {
            None
        } else if ae + 9 > s.len() || s.subrange(ae, ae + 9) != lit_price() {
            None
        } else {
            let pe = digit_run_end(s, ae + 9);
            let pd = s.subrange(ae + 9, pe);
            if !canonical_digits(pd) || !(0 < fold_digits(pd) <= u64::MAX) {
                None
            } else if pe + 1 == s.len() && s[pe] == 125 {
                Some(
                    OrderModel {
                        id,
                        order_type: t,
                        amount: fold_digits(ad) as u64,
                        price: fold_digits(pd) as u64,
                    },
                )
            } else {
                None
            }
        }
    }
}

fn lit_prefix_vec() -> (v: Vec<u8>)
    ensures
        v@ == lit_prefix(),
{
    let mut v: Vec<u8> = Vec::new();
    v.push(123);
    v.push(34);
    v.push(111);
    v.push(114);
    v.push(100);
    v.push(101);
    v.push(114);
    v.push(95);
    v.push(105);
    v.push(100);
    v.push(34);
    v.push(58);
    v.push(34);
    proof {
        assert(v@ =~= lit_prefix());
    }
    v
}

fn lit_type_vec() -> (v: Vec<u8>)
    ensures
        v@ == lit_type(),
{
    let mut v: Vec<u8> = Vec::new();
    v.push(34);
    v.push(44);
    v.push(34);
    v.push(111);
    v.push(114);
    v.push(100);
    v.push(101);
    v.push(114);
    v.push(95);
    v.push(116);
    v.push(121);
    v.push(112);
    v.push(101);
    v.push(34);
    v.push(58);
    v.push(34);
    proof {
        assert(v@ =~= lit_type());
    }
    v
}

fn lit_amount_vec() -> (v: Vec<u8>)
    ensures
        v@ == lit_amount(),
{
    let mut v: Vec<u8> = Vec::new();
    v.push(34);
    v.push(44);
    v.push(34);
    v.push(97);
    v.push(109);
    v.push(111);
    v.push(117);
    v.push(110);
    v.push(116);
    v.push(34);
    v.push(58);
    proof {
        assert(v@ =~= lit_amount());
    }
    v
}

fn lit_price_vec() -> (v: Vec<u8>)
    ensures
        v@ == lit_price(),
{
    let mut v: Vec<u8> = Vec::new();
    v.push(44);
    v.push(34);
    v.push(112);
    v.push(114);
    v.push(105);
    v.push(99);
    v.push(101);
    v.push(34);
    v.push(58);
    proof {
        assert(v@ =~= lit_price());
    }
    v
}

fn type_bytes_vec(t: OrderType) -> (v: Vec<u8>)
    ensures
        v@ == type_bytes(t),
{
    let mut v: Vec<u8> = Vec::new();
    match t {
        OrderType::Buy => {
            v.push(98);
            v.push(117);
            v.push(121);
        },
        OrderType::Sell => {
            v.push(115);
            v.push(101);
            v.push(108);
            v.push(108);
        },
    }
    proof {
        assert(v@ =~= type_bytes(t));
    }
    v
}

/// Relies on std's `String::push`: it appends exactly the given character.
pub assume_specification[ String::push ](s: &mut String, ch: char)
    ensures
        final(s)@ == old(s)@.push(ch),
;

/// Character-level facts about an id byte.
pub proof fn lemma_byte_char(b: u8)
    requires
        id_byte_ok(b),
    ensures
        id_char_ok(b as char),
        (b as char) as u8 == b,
{
}

/// Byte-level facts about an id character.
pub proof fn lemma_id_char_byte(c: char)
    requires
        id_char_ok(c),
    ensures
        0x20 <= c as u8 <= 0x7e,
        c as u8 != 34,
        c as u8 != 92,
        (c as u8) as char == c,
{
    assert(' ' <= c <= '~');
}

fn push_ascii_id(out: &mut Vec<u8>, id: &str)
    requires
        valid_id(id@),
    ensures
        final(out)@ == old(out)@ + ascii_bytes(id@),
{
    proof {
        assert forall|i: int| 0 <= i < id@.len() implies '\0' <= #[trigger] id@[i] <= '\u{7f}' by {
            assert(id_char_ok(id@[i]));
        }
        assert(vstd::utf8::is_ascii_chars(id@));
    }
    let mut b = id.as_bytes_vec();
    proof {
        assert(vstd::string::is_ascii(id));
        vstd::string::is_ascii_spec_bytes(id);
        assert(b@ =~= ascii_bytes(id@));
    }
    out.append(&mut b);
}

fn push_decimal(out: &mut Vec<u8>, n: u64)
    ensures
        final(out)@ == old(out)@ + dec_digits(n as nat),
    decreases n,
{
    if n < 10 {
        out.push((48 + n) as u8);
        proof {
            assert(out@ =~= old(out)@ + dec_digits(n as nat));
        }
    } else {
        push_decimal(out, n / 10);
        out.push((48 + (n % 10)) as u8);
        proof {
            assert((n as nat) / 10 == (n / 10) as nat);
            assert(out@ =~= old(out)@ + dec_digits(n as nat));
        }
    }
}

/// Encode a well-formed order into its canonical wire bytes.
///
/// Never fails: every well-formed order has exactly one encoding.
pub fn encode_order(o: &Order) -> (r: Vec<u8>)
    requires
        wf_order(o@),
    ensures
        r@ == spec_encode(o@),
{
    let mut out = lit_prefix_vec();
    push_ascii_id(&mut out, o.order_id.as_str());
    let mut piece = lit_type_vec();
    out.append(&mut piece);
    let mut piece = type_bytes_vec(o.order_type);
    out.append(&mut piece);
    let mut piece = lit_amount_vec();
    out.append(&mut piece);
    push_decimal(&mut out, o.amount);
    let mut piece = lit_price_vec();
    out.append(&mut piece);
    push_decimal(&mut out, o.price);
    out.push(125);
    proof {
        assert(out@ =~= spec_encode(o@));
    }
    out
}

fn match_lit(bytes: &Vec<u8>, at: usize, pat: &Vec<u8>) -> (r: bool)
    ensures
        r == (at + pat@.len() <= bytes@.len() && bytes@.subrange(
            at as int,
            at + pat@.len(),
        ) == pat@),
{
    if at > bytes.len() || bytes.len() - at < pat.len() {
        return false;
    }
    let mut j: usize = 0;
    while j < pat.len()
        invariant
            at + pat@.len() <= bytes@.len(),
            bytes@.len() <= usize::MAX,
            j <= pat@.len(),
            forall|k: int| 0 <= k < j ==> bytes@[at + k] == pat@[k],
        decreases pat@.len() - j,
    {
        if bytes[at + j] != pat[j] {
            proof {
                assert(bytes@.subrange(at as int, at + pat@.len())[j as int] != pat@[j as int]);
            }
            return false;
        }
        j += 1;
    }
    proof {
        assert(bytes@.subrange(at as int, at + pat@.len()) =~= pat@);
    }
    true
}

fn scan_quote(bytes: &Vec<u8>, from: usize) -> (r: usize)
    requires
        from <= bytes@.len(),
    ensures
        r == quote_end(bytes@, from as int),
        from <= r <= bytes@.len(),
{
    let mut j: usize = from;
    while j < bytes.len() && bytes[j] != 34
        invariant
            from <= j <= bytes@.len(),
            forall|k: int| from <= k < j ==> bytes@[k] != 34,
        decreases bytes@.len() - j,
    {
        j += 1;
    }
    proof {
        lemma_quote_end_at(bytes@, from as int, j as int);
    }
    j
}

fn scan_digits(bytes: &Vec<u8>, from: usize) -> (r: usize)
    requires
        from <= bytes@.len(),
    ensures
        r == digit_run_end(bytes@, from as int),
        from <= r <= bytes@.len(),
        forall|k: int| from <= k < r ==> is_digit(#[trigger] bytes@[k]),
{
    let mut j: usize = from;
    while j < bytes.len() && bytes[j] >= 48 && bytes[j] <= 57
        invariant
            from <= j <= bytes@.len(),
            forall|k: int| from <= k < j ==> is_digit(#[trigger] bytes@[k]),
        decreases bytes@.len() - j,
    {
        j += 1;
    }
    proof {
        lemma_digit_run_end_at(bytes@, from as int, j as int);
    }
    j
}

fn read_id(bytes: &Vec<u8>, from: usize, to: usize) -> (r: Option<String>)
    requires
        from <= to <= bytes@.len(),
    ensures
        match r {
            Some(s) => {
                &&& valid_id_bytes(bytes@.subrange(from as int, to as int))
                &&& s@ == chars_of(bytes@.subrange(from as int, to as int))
                &&& valid_id(s@)
            },
            None => !valid_id_bytes(bytes@.subrange(from as int, to as int)),
        },
{
    let mut s = String::new();
    let mut j: usize = from;
    while j < to
        invariant
            from <= j <= to <= bytes@.len(),
            forall|k: int| from <= k < j ==> id_byte_ok(#[trigger] bytes@[k]),
            s@ == chars_of(bytes@.subrange(from as int, j as int)),
        decreases to - j,
    {
        let b = bytes[j];
        if b < 0x20 || b > 0x7e || b == 34 || b == 92 {
            proof {
                assert(!id_byte_ok(bytes@.subrange(from as int, to as int)[j - from]));
            }
            return None;
        }
        s.push(b as char);
        proof {
            assert(s@ =~= chars_of(bytes@.subrange(from as int, j + 1)));
        }
        j += 1;
    }
    proof {
        assert(bytes@.subrange(from as int, j as int) =~= bytes@.subrange(from as int, to as int));
        let sub = bytes@.subrange(from as int, to as int);
        assert forall|i: int| 0 <= i < s@.len() implies id_char_ok(#[trigger] s@[i]) by {
            lemma_byte_char(sub[i]);
        }
    }
    Some(s)
}

fn parse_number(bytes: &Vec<u8>, from: usize, to: usize) -> (r: Option<u64>)
    requires
        from <= to <= bytes@.len(),
        forall|k: int| from <= k < to ==> is_digit(#[trigger] bytes@[k]),
    ensures
        match r {
            Some(v) => v == fold_digits(bytes@.subrange(from as int, to as int)),
            None => fold_digits(bytes@.subrange(from as int, to as int)) > u64::MAX,
        },
{
    let mut acc: u128 = 0;
    let mut j: usize = from;
    while j < to
        invariant
            from <= j <= to <= bytes@.len(),
            forall|k: int| from <= k < to ==> is_digit(#[trigger] bytes@[k]),
            acc <= u64::MAX as u128,
            acc == fold_digits(bytes@.subrange(from as int, j as int)),
        decreases to - j,
    {
        let d = bytes[j] - 48;
        acc = acc * 10 + d as u128;
        proof {
            let sub1 = bytes@.subrange(from as int, j + 1);
            assert(sub1.drop_last() =~= bytes@.subrange(from as int, j as int));
            assert(sub1.last() == bytes@[j as int]);
            assert(acc == fold_digits(sub1));
        }
        if acc > u64::MAX as u128 {
            proof {
                lemma_fold_sub_le(bytes@, from as int, j + 1, to as int);
            }
            return None;
        }
        j += 1;
    }
    Some(acc as u64)
}

/// Decode canonical wire bytes back into an order.
///
/// Returns `Ok` exactly when the bytes are the canonical encoding of a
/// well-formed order, and `MalformedMessage` on every other input; it never
/// panics, whatever the bytes hold.
pub fn decode_order(bytes: &Vec<u8>) -> (r: Result<Order, TransportError>)
    ensures
        match r {
            Ok(o) => spec_decode(bytes@) == Some(o@) && wf_order(o@) && bytes@ == spec_encode(o@),
            Err(e) => spec_decode(bytes@) is None && e == TransportError::MalformedMessage,
        },
{
    let n = bytes.len();
    let lp = lit_prefix_vec();
    if !match_lit(bytes, 0, &lp) {
        return Err(TransportError::MalformedMessage);
    }
    let q = scan_quote(bytes, 13);
    if q == n {
        return Err(TransportError::MalformedMessage);
    }
    let id = match read_id(bytes, 13, q) {
        Some(s) => s,
        None => {
            return Err(TransportError::MalformedMessage);
        },
    };
    let lt = lit_type_vec();
    if !match_lit(bytes, q, &lt) {
        return Err(TransportError::MalformedMessage);
    }
    let bt = type_bytes_vec(OrderType::Buy);
    let st = type_bytes_vec(OrderType::Sell);
    let order_type: OrderType;
    let pos: usize;
    if match_lit(bytes, q + 16, &bt) {
        order_type = OrderType::Buy;
        pos = q + 19;
    } else if match_lit(bytes, q + 16, &st) {
        order_type = OrderType::Sell;
        pos = q + 20;
    } else {
        return Err(TransportError::MalformedMessage);
    }
    let la = lit_amount_vec();
    if !match_lit(bytes, pos, &la) {
        return Err(TransportError::MalformedMessage);
    }
    let astart = pos + 11;
    let aend = scan_digits(bytes, astart);
    if aend == astart || (aend - astart > 1 && bytes[astart] == 48) {
        return Err(TransportError::MalformedMessage);
    }
    let amount = match parse_number(bytes, astart, aend) {
        Some(v) => v,
        None => {
            return Err(TransportError::MalformedMessage);
        },
    };
    if amount == 0 {
        return Err(TransportError::MalformedMessage);
    }
    let lpr = lit_price_vec();
    if !match_lit(bytes, aend, &lpr) {
        return Err(TransportError::MalformedMessage);
    }
    let pstart = aend + 9;
    let pend = scan_digits(bytes, pstart);
    if pend == pstart || (pend - pstart > 1 && bytes[pstart] == 48) {
        return Err(TransportError::MalformedMessage);
    }
    let price = match parse_number(bytes, pstart, pend) {
        Some(v) => v,
        None => {
            return Err(TransportError::MalformedMessage);
        },
    };
    if price == 0 {
        return Err(TransportError::MalformedMessage);
    }
    if !(pend < n && bytes[pend] == 125 && pend + 1 == n) {
        return Err(TransportError::MalformedMessage);
    }
    let o = Order { order_id: id, order_type, amount, price };
    proof {
        lemma_decode_sound(bytes@, o@);
    }
    Ok(o)
}

pub proof fn lemma_quote_end_props(s: Seq<u8>, i: int)
    requires
        0 <= i <= s.len(),
    ensures
        i <= quote_end(s, i) <= s.len(),
        quote_end(s, i) < s.len() ==> s[quote_end(s, i)] == 34,
        forall|k: int| i <= k < quote_end(s, i) ==> s[k] != 34,
    decreases s.len() - i,
{
    if i < s.len() && s[i] != 34 {
        lemma_quote_end_props(s, i + 1);
    }
}

pub proof fn lemma_quote_end_at(s: Seq<u8>, i: int, k: int)
    requires
        0 <= i <= k <= s.len(),
        forall|j: int| i <= j < k ==> s[j] != 34,
        k < s.len() ==> s[k] == 34,
    ensures
        quote_end(s, i) == k,
    decreases k - i,
{
    if i < k {
        lemma_quote_end_at(s, i + 1, k);
    }
}

pub proof fn lemma_digit_run_end_at(s: Seq<u8>, i: int, k: int)
    requires
        0 <= i <= k <= s.len(),
        forall|j: int| i <= j < k ==> is_digit(s[j]),
        k < s.len() ==> !is_digit(s[k]),
    ensures
        digit_run_end(s, i) == k,
    decreases k - i,
{
    if i < k {
        lemma_digit_run_end_at(s, i + 1, k);
    }
}

pub proof fn lemma_digit_run_end_props(s: Seq<u8>, i: int)
    requires
        0 <= i <= s.len(),
    ensures
        i <= digit_run_end(s, i) <= s.len(),
        forall|k: int| i <= k < digit_run_end(s, i) ==> is_digit(s[k]),
    decreases s.len() - i,
{
    if i < s.len() && is_digit(s[i]) {
        lemma_digit_run_end_props(s, i + 1);
    }
}

/// All digit sequences fold to a value at least zero.
pub proof fn lemma_fold_nonneg(d: Seq<u8>)
    requires
        forall|i: int| 0 <= i < d.len() ==> is_digit(#[trigger] d[i]),
    ensures
        fold_digits(d) >= 0,
    decreases d.len(),
{
    if d.len() > 0 {
        lemma_fold_nonneg(d.drop_last());
    }
}

/// A digit sequence that does not start with zero folds to a positive value.
pub proof fn lemma_fold_pos(d: Seq<u8>)
    requires
        d.len() >= 1,
        forall|i: int| 0 <= i < d.len() ==> is_digit(#[trigger] d[i]),
        d[0] != 48,
    ensures
        fold_digits(d) >= 1,
    decreases d.len(),
{
    if d.len() == 1 {
        assert(d.drop_last().len() == 0);
        assert(fold_digits(d.drop_last()) == 0);
        assert(is_digit(d[0]));
        assert(fold_digits(d) == d[0] - 48);
    } else {
        let dl = d.drop_last();
        assert(dl[0] == d[0]);
        assert(forall|i: int| 0 <= i < dl.len() ==> is_digit(#[trigger] dl[i]));
        lemma_fold_pos(dl);
        assert(is_digit(d.last()));
    }
}

/// The canonical digits of `n` are digits, start with a non-zero digit
/// unless `n` is zero, and fold back to `n`.
pub proof fn lemma_dec_digits_props(n: nat)
    ensures
        dec_digits(n).len() >= 1,
        forall|i: int| 0 <= i < dec_digits(n).len() ==> is_digit(#[trigger] dec_digits(n)[i]),
        n > 0 ==> dec_digits(n)[0] != 48,
        n < 10 ==> dec_digits(n).len() == 1,
        canonical_digits(dec_digits(n)),
        fold_digits(dec_digits(n)) == n,
    decreases n,
{
    if n < 10 {
        let d = dec_digits(n);
        assert(d =~= seq![(48 + n) as u8]);
        assert(d.drop_last() =~= Seq::<u8>::empty());
        assert(fold_digits(d.drop_last()) == 0);
        assert(d.last() == (48 + n) as u8);
        assert(fold_digits(d) == n);
    } else {
        lemma_dec_digits_props(n / 10);
        let d = dec_digits(n);
        assert(d == dec_digits(n / 10) + seq![(48 + n % 10) as u8]);
        assert(d.drop_last() =~= dec_digits(n / 10));
        assert(d.last() == (48 + n % 10) as u8);
        assert(fold_digits(d) == fold_digits(dec_digits(n / 10)) * 10 + (n % 10));
        assert((n / 10) * 10 + n % 10 == n) by {
            vstd::arithmetic::div_mod::lemma_fundamental_div_mod(n as int, 10);
        }
        assert(d[0] == dec_digits(n / 10)[0]);
    }
}

/// Folding is the inverse of writing digits: a canonical digit sequence is
/// exactly the canonical digits of its value.
pub proof fn lemma_dec_of_fold(d: Seq<u8>)
    requires
        canonical_digits(d),
    ensures
        fold_digits(d) >= 0,
        dec_digits(fold_digits(d) as nat) == d,
    decreases d.len(),
{
    lemma_fold_nonneg(d);
    if d.len() == 1 {
        assert(d.drop_last().len() == 0);
        assert(fold_digits(d.drop_last()) == 0);
        assert(fold_digits(d) == d[0] - 48);
        assert(dec_digits(fold_digits(d) as nat) =~= d);
    } else {
        let dl = d.drop_last();
        assert(forall|i: int| 0 <= i < dl.len() ==> is_digit(#[trigger] dl[i]));
        lemma_fold_pos(dl);
        lemma_dec_of_fold(dl);
        let n = fold_digits(d);
        let m = fold_digits(dl);
        assert(n == m * 10 + (d.last() - 48));
        assert(n / 10 == m && n % 10 == d.last() - 48) by {
            vstd::arithmetic::div_mod::lemma_fundamental_div_mod_converse(
                n,
                10,
                m,
                d.last() - 48,
            );
        }
        assert(n >= 10);
        assert(dec_digits(n as nat) == dec_digits((n as nat) / 10) + seq![(48 + (n as nat) % 10) as u8]);
        assert((n as nat) / 10 == m as nat && (n as nat) % 10 == d.last() - 48);
        assert(dec_digits(m as nat) == dl);
        assert((48 + (n as nat) % 10) as u8 == d.last());
        assert(dec_digits(n as nat) == dl + seq![d.last()]);
        assert(dec_digits(n as nat) =~= d);
    }
}

/// Law: decoding inverts encoding. Every well-formed order is recovered
/// unchanged from its canonical wire bytes.
#[verifier::rlimit(60)]
pub proof fn lemma_round_trip(o: OrderModel)
    requires
        wf_order(o),
    ensures
        spec_decode(spec_encode(o)) == Some(o),
{
    let s = spec_encode(o);
    let idb = ascii_bytes(o.id);
    let tb = type_bytes(o.order_type);
    let da = dec_digits(o.amount as nat);
    let dp = dec_digits(o.price as nat);
    let o2 = 13 + idb.len() as int;
    let o3 = o2 + 16;
    let o4 = o3 + tb.len() as int;
    let o5 = o4 + 11;
    let o6 = o5 + da.len() as int;
    let o7 = o6 + 9;
    let o8 = o7 + dp.len() as int;
    lemma_dec_digits_props(o.amount as nat);
    lemma_dec_digits_props(o.price as nat);
    assert(s.len() == o8 + 1);
    assert(s.subrange(0, 13) =~= lit_prefix());
    assert(s.subrange(13, o2) =~= idb);
    assert(s.subrange(o2, o3) =~= lit_type());
    assert(s.subrange(o3, o4) =~= tb);
    assert(s.subrange(o4, o5) =~= lit_amount());
    assert(s.subrange(o5, o6) =~= da);
    assert(s.subrange(o6, o7) =~= lit_price());
    assert(s.subrange(o7, o8) =~= dp);
    assert(s[o8] == 125);
    assert forall|k: int| 13 <= k < o2 implies s[k] != 34 by {
        assert(s[k] == idb[k - 13]);
        lemma_id_char_byte(o.id[k - 13]);
    }
    assert(s[o2] == lit_type()[0]);
    lemma_quote_end_at(s, 13, o2);
    assert forall|k: int| 0 <= k < idb.len() implies id_byte_ok(
        #[trigger] s.subrange(13, o2)[k],
    ) by {
        lemma_id_char_byte(o.id[k]);
    }
    assert(valid_id_bytes(s.subrange(13, o2)));
    assert forall|k: int| 0 <= k < idb.len() implies chars_of(s.subrange(13, o2))[k] == o.id[k] by {
        lemma_id_char_byte(o.id[k]);
    }
    assert(chars_of(s.subrange(13, o2)) =~= o.id);
    if o.order_type is Sell {
        if o3 + 3 <= s.len() {
            assert(s.subrange(o3, o3 + 3)[0] == s[o3]);
            assert(s[o3] == tb[0]);
            assert(s.subrange(o3, o3 + 3) != type_bytes(OrderType::Buy));
        }
    }
    assert forall|k: int| o5 <= k < o6 implies is_digit(#[trigger] s[k]) by {
        assert(s[k] == da[k - o5]);
    }
    assert(s[o6] == lit_price()[0]);
    lemma_digit_run_end_at(s, o5, o6);
    assert forall|k: int| o7 <= k < o8 implies is_digit(#[trigger] s[k]) by {
        assert(s[k] == dp[k - o7]);
    }
    assert(!is_digit(s[o8]));
    lemma_digit_run_end_at(s, o7, o8);
    assert(fold_digits(s.subrange(o5, o6)) == o.amount);
    assert(fold_digits(s.subrange(o7, o8)) == o.price);
    assert(spec_decode(s) == Some(o));
}

/// Law: decoding is sound. Whatever the parser accepts is well formed and
/// re-encodes to exactly the bytes it was read from.
pub proof fn lemma_decode_sound(s: Seq<u8>, o: OrderModel)
    requires
        spec_decode(s) == Some(o),
    ensures
        wf_order(o),
        spec_encode(o) == s,
{
    lemma_quote_end_props(s, 13);
    let q = quote_end(s, 13);
    let idb = s.subrange(13, q);
    let id = chars_of(idb);
    assert(spec_decode_type(s, q, id) == Some(o));
    assert(s.subrange(q, q + 16) == lit_type());
    let buy_case = q + 19 <= s.len() && s.subrange(q + 16, q + 19) == type_bytes(OrderType::Buy);
    let pos = if buy_case {
        q + 19
    } else {
        q + 20
    };
    let t = if buy_case {
        OrderType::Buy
    } else {
        OrderType::Sell
    };
    assert(spec_decode_nums(s, pos, id, t) == Some(o));
    let ae = digit_run_end(s, pos + 11);
    let ad = s.subrange(pos + 11, ae);
    lemma_digit_run_end_props(s, pos + 11);
    let pe = digit_run_end(s, ae + 9);
    let pd = s.subrange(ae + 9, pe);
    lemma_digit_run_end_props(s, ae + 9);
    assert(o == OrderModel {
        id,
        order_type: t,
        amount: fold_digits(ad) as u64,
        price: fold_digits(pd) as u64,
    });
    assert forall|i: int| 0 <= i < id.len() implies id_char_ok(#[trigger] id[i]) by {
        lemma_byte_char(idb[i]);
    }
    assert(0 < fold_digits(ad) <= u64::MAX && 0 < fold_digits(pd) <= u64::MAX);
    assert(wf_order(o));
    assert forall|i: int| 0 <= i < idb.len() implies ascii_bytes(id)[i] == idb[i] by {
        lemma_byte_char(idb[i]);
    }
    assert(ascii_bytes(o.id) =~= idb);
    lemma_dec_of_fold(ad);
    lemma_dec_of_fold(pd);
    assert(dec_digits(o.amount as nat) == ad);
    assert(dec_digits(o.price as nat) == pd);
    assert(s.subrange(0, 13) == lit_prefix());
    assert(type_bytes(t) =~= s.subrange(q + 16, pos));
    assert(s.subrange(pos, pos + 11) == lit_amount());
    assert(s.subrange(ae, ae + 9) == lit_price());
    assert(pe + 1 == s.len() && s[pe] == 125);
    assert(spec_encode(o) =~= s);
}

/// Law: decoding succeeds exactly on the canonical encodings of well-formed
/// orders; every other byte sequence is malformed.
pub proof fn lemma_codec_exact(s: Seq<u8>)
    ensures
        (spec_decode(s) is Some) <==> exists|o: OrderModel|
            wf_order(o) && s == spec_encode(o),
{
    if spec_decode(s) is Some {
        let o = spec_decode(s)->Some_0;
        lemma_decode_sound(s, o);
        assert(wf_order(o) && s == spec_encode(o));
    }
    if exists|o: OrderModel| wf_order(o) && s == spec_encode(o) {
        let o = choose|o: OrderModel| wf_order(o) && s == spec_encode(o);
        lemma_round_trip(o);
    }
}

/// Folding a longer digit run never yields a smaller value.
pub proof fn lemma_fold_sub_le(s: Seq<u8>, i: int, j: int, k: int)
    requires
        0 <= i <= j <= k <= s.len(),
        forall|m: int| i <= m < k ==> is_digit(#[trigger] s[m]),
    ensures
        fold_digits(s.subrange(i, j)) <= fold_digits(s.subrange(i, k)),
    decreases k - j,
{
    if j < k {
        let a = s.subrange(i, j);
        let b = s.subrange(i, j + 1);
        assert(b.drop_last() =~= a);
        lemma_fold_nonneg(a);
        assert(fold_digits(b) == fold_digits(a) * 10 + (b.last() - 48));
        assert(fold_digits(a) <= fold_digits(b));
        lemma_fold_sub_le(s, i, j + 1, k);
    }
}

} // verus!
