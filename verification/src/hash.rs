//! Object identifiers: fixed-width binary ids and the hex form in which
//! object payloads carry them.

use vstd::prelude::*;

verus! {

/// The width of a binary object id.
pub const ID_LEN: usize = 20;

/// ASCII `0`.
pub const DIGIT_0: u8 = 48;

/// ASCII `9`.
pub const DIGIT_9: u8 = 57;

/// ASCII `a`.
pub const LOWER_A: u8 = 97;

/// ASCII `f`.
pub const LOWER_F: u8 = 102;

/// ASCII `A`.
pub const UPPER_A: u8 = 65;

/// ASCII `F`.
pub const UPPER_F: u8 = 70;

/// True iff the byte is an ASCII hex digit.
pub open spec fn is_hex_digit(b: u8) -> bool {
    (DIGIT_0 <= b && b <= DIGIT_9) || (LOWER_A <= b && b <= LOWER_F) || (UPPER_A <= b && b <= UPPER_F)
}

/// The numeric value of an ASCII hex digit.
pub open spec fn hex_val(b: u8) -> u8 {
    if DIGIT_0 <= b && b <= DIGIT_9 {
        (b - DIGIT_0) as u8
    } else if LOWER_A <= b && b <= LOWER_F {
        (b - LOWER_A + 10) as u8
    } else {
        (b - UPPER_A + 10) as u8
    }
}

/// The bytes encoded by a run of hex digit pairs.
pub open spec fn decoded(h: Seq<u8>) -> Seq<u8> {
    Seq::new((h.len() / 2) as nat, |i: int| (hex_val(h[2 * i]) * 16 + hex_val(h[2 * i + 1])) as u8)
}

/// A binary object id: exactly [`ID_LEN`] bytes.
#[derive(Debug, PartialEq, Eq)]
pub struct ObjectId {
    bytes: Vec<u8>,
}

impl View for ObjectId {
    type V = Seq<u8>;

    closed spec fn view(&self) -> Seq<u8> {
        self.bytes@
    }
}

impl ObjectId {
    /// An id is well formed when it holds exactly [`ID_LEN`] bytes; every
    /// constructor establishes this.
    pub open spec fn wf(&self) -> bool {
        self@.len() == ID_LEN
    }

    /// Builds an id from its binary form; rejects any other width.
    pub fn from_bytes(bytes: Vec<u8>) -> (r: Option<ObjectId>)
        ensures
            match r {
                Some(id) => bytes@.len() == ID_LEN && id@ == bytes@ && id.wf(),
                None => bytes@.len() != ID_LEN,
            },
    {
        if bytes.len() == ID_LEN {
            Some(ObjectId { bytes })
        } else {
            None
        }
    }

    /// A fresh id holding the same bytes.
    pub fn duplicate(&self) -> (r: ObjectId)
        ensures
            r@ == self@,
    {
        ObjectId { bytes: copy_bytes(&self.bytes) }
    }

    /// Decodes forty hex digits into an id; rejects any other input.
    pub fn from_hex(h: &Vec<u8>) -> (r: Option<ObjectId>)
        ensures
            match r {
                Some(id) => h@.len() == 40 && (forall|j: int|
                    0 <= j < 40 ==> is_hex_digit(#[trigger] h@[j])) && id@ == decoded(h@),
                None => !(h@.len() == 40 && (forall|j: int|
                    0 <= j < 40 ==> is_hex_digit(#[trigger] h@[j]))),
            },
    {
        if h.len() == 40 && all_hex(h, 0, 40) {
            let id = decode_id(h, 0);
            proof {
                assert(h@.subrange(0int, 0int + 40) =~= h@);
            }
            Some(id)
        } else {
            None
        }
    }

    /// The id's binary bytes.
    pub fn as_bytes(&self) -> (r: &Vec<u8>)
        ensures
            r@ == self@,
    {
        &self.bytes
    }

    /// True iff the two ids hold the same bytes.
    pub fn eq_id(&self, other: &ObjectId) -> (r: bool)
        ensures
            r == (self@ == other@),
    {
        bytes_eq(&self.bytes, &other.bytes)
    }
}

/// A fresh vector holding the same bytes.
pub(crate) fn copy_bytes(v: &Vec<u8>) -> (r: Vec<u8>)
    ensures
        r@ == v@,
{
    let mut out: Vec<u8> = Vec::new();
    let n = v.len();
    let mut i: usize = 0;
    while i < n
        invariant
            n == v@.len(),
            i <= n,
            out@ == v@.take(i as int),
        decreases n - i,
    {
        out.push(v[i]);
        proof {
            assert(out@ =~= v@.take(i + 1));
        }
        i = i + 1;
    }
    proof {
        assert(v@.take(n as int) =~= v@);
    }
    out
}

/// True iff the two byte vectors hold the same bytes.
fn bytes_eq(a: &Vec<u8>, b: &Vec<u8>) -> (r: bool)
    ensures
        r == (a@ == b@),
{
    let a_len = a.len();
    let b_len = b.len();
    if a_len != b_len {
        return false;
    }
    let mut i: usize = 0;
    while i < a_len
        invariant
            a_len == a@.len(),
            b_len == b@.len(),
            a_len == b_len,
            i <= a_len,
            forall|j: int| 0 <= j < i ==> a@[j] == b@[j],
        decreases a_len - i,
    {
        if a[i] != b[i] {
            return false;
        }
        i = i + 1;
    }
    proof {
        assert(a@ =~= b@);
    }
    true
}

/// True iff the byte is an ASCII hex digit.
fn is_hex_digit_exec(b: u8) -> (r: bool)
    ensures
        r == is_hex_digit(b),
{
    (DIGIT_0 <= b && b <= DIGIT_9) || (LOWER_A <= b && b <= LOWER_F) || (UPPER_A <= b && b <= UPPER_F)
}

/// True iff the bytes of `d` from `from` (inclusive) to `to` (exclusive)
/// are all hex digits.
pub(crate) fn all_hex(d: &Vec<u8>, from: usize, to: usize) -> (r: bool)
    requires
        from <= to <= d@.len(),
    ensures
        r == forall|j: int| from <= j < to ==> is_hex_digit(#[trigger] d@[j]),
{
    let mut i: usize = from;
    while i < to
        invariant
            from <= i <= to,
            to <= d@.len(),
            forall|j: int| from <= j < i ==> is_hex_digit(#[trigger] d@[j]),
        decreases to - i,
    {
        if !is_hex_digit_exec(d[i]) {
            return false;
        }
        i = i + 1;
    }
    true
}

/// Decodes the forty hex digits of `d` starting at `start` into a binary
/// id.
pub(crate) fn decode_id(d: &Vec<u8>, start: usize) -> (r: ObjectId)
    requires
        start + 40 <= d@.len(),
        forall|j: int| start <= j < start + 40 ==> is_hex_digit(#[trigger] d@[j]),
    ensures
        r@ == decoded(d@.subrange(start as int, start as int + 40)),
        r.wf(),
{
    let ghost h = d@.subrange(start as int, start as int + 40);
    let d_len = d.len();
    let mut bytes: Vec<u8> = Vec::new();
    let mut i: usize = 0;
    while i < ID_LEN
        invariant
            i <= ID_LEN,
            d_len == d@.len(),
            start + 40 <= d@.len(),
            forall|j: int| start <= j < start + 40 ==> is_hex_digit(#[trigger] d@[j]),
            h == d@.subrange(start as int, start as int + 40),
            bytes@ == decoded(h).take(i as int),
        decreases ID_LEN - i,
    {
        let hi = hex_val_exec(d[start + 2 * i]);
        let lo = hex_val_exec(d[start + 2 * i + 1]);
        let b: u8 = hi * 16 + lo;
        proof {
            assert(h[2 * i as int] == d@[start + 2 * i]);
            assert(h[2 * i as int + 1] == d@[start + 2 * i + 1]);
            assert(decoded(h)[i as int] == b);
        }
        bytes.push(b);
        proof {
            assert(bytes@ =~= decoded(h).take(i + 1));
        }
        i = i + 1;
    }
    proof {
        assert(decoded(h).take(ID_LEN as int) =~= decoded(h));
    }
    ObjectId { bytes }
}

/// The numeric value of an ASCII hex digit.
fn hex_val_exec(b: u8) -> (r: u8)
    requires
        is_hex_digit(b),
    ensures
        r == hex_val(b),
        r < 16,
{
    if DIGIT_0 <= b && b <= DIGIT_9 {
        b - DIGIT_0
    } else if LOWER_A <= b && b <= LOWER_F {
        b - LOWER_A + 10
    } else {
        b - UPPER_A + 10
    }
}

} // verus!
