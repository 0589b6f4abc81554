use crate::model::id::{lemma_numeric_id_injective, numeric_id, Id, ID_LENGTH};
use vstd::prelude::*;
use vstd::string::*;

verus! {

/// What can stand as a part of a key.
pub trait AsKey {
    /// The bytes that this part adds to a key.
    spec fn key_bytes(&self) -> Seq<u8>;

    fn as_key(&self) -> (key: Vec<u8>)
        ensures
            key@ == self.key_bytes(),
    ;
}

/// The decimal digits of `n`, in ASCII, without leading zeros.
pub open spec fn decimal(n: nat) -> Seq<u8>
    decreases n,
{
    if n < 10 {
        seq![(48 + n) as u8]
    } else {
        decimal(n / 10).push((48 + n % 10) as u8)
    }
}

/// The number that a string of ASCII digits writes.
pub open spec fn decimal_value(digits: Seq<u8>) -> int
    decreases digits.len(),
{
    if digits.len() == 0 {
        0
    } else {
        decimal_value(digits.drop_last()) * 10 + (digits.last() - 48)
    }
}

/// Reading the digits of a number gives the number back.
pub proof fn lemma_decimal_value(n: nat)
    ensures
        decimal_value(decimal(n)) == n,
        decimal(n).len() >= 1,
    decreases n,
{
    if n < 10 {
        let d = decimal(n);
        assert(d.drop_last() =~= Seq::<u8>::empty());
        assert(decimal_value(d.drop_last()) == 0);
    } else {
        lemma_decimal_value(n / 10);
        let d = decimal(n);
        assert(d.drop_last() =~= decimal(n / 10));
    }
}

/// Different numbers are written with different digits.
pub proof fn lemma_decimal_injective(a: nat, b: nat)
    requires
        decimal(a) == decimal(b),
    ensures
        a == b,
{
    lemma_decimal_value(a);
    lemma_decimal_value(b);
}

/// Appends the decimal digits of `n` to `key`.
fn push_decimal(key: &mut Vec<u8>, n: u32)
    ensures
        final(key)@ == old(key)@ + decimal(n as nat),
    decreases n,
{
    if n < 10 {
        key.push(48u8 + (n as u8));
        proof {
            assert(final(key)@ =~= old(key)@ + decimal(n as nat));
        }
    } else {
        push_decimal(key, n / 10);
        key.push(48u8 + ((n % 10) as u8));
        proof {
            assert(key@ =~= old(key)@ + decimal(n as nat));
        }
    }
}

impl AsKey for str {
    open spec fn key_bytes(&self) -> Seq<u8> {
        self.spec_bytes()
    }

    fn as_key(&self) -> (key: Vec<u8>) {
        self.as_bytes_vec()
    }
}

impl AsKey for Vec<u8> {
    open spec fn key_bytes(&self) -> Seq<u8> {
        self@
    }

    fn as_key(&self) -> (key: Vec<u8>) {
        copy_bytes(self.as_slice())
    }
}

impl AsKey for &[u8] {
    open spec fn key_bytes(&self) -> Seq<u8> {
        self@
    }

    fn as_key(&self) -> (key: Vec<u8>) {
        copy_bytes(self)
    }
}

impl AsKey for u32 {
    open spec fn key_bytes(&self) -> Seq<u8> {
        decimal(*self as nat)
    }

    fn as_key(&self) -> (key: Vec<u8>) {
        let mut key: Vec<u8> = Vec::new();
        push_decimal(&mut key, *self);
        proof {
            assert(key@ =~= decimal(*self as nat));
        }
        key
    }
}

impl AsKey for u16 {
    open spec fn key_bytes(&self) -> Seq<u8> {
        decimal(*self as nat)
    }

    fn as_key(&self) -> (key: Vec<u8>) {
        let mut key: Vec<u8> = Vec::new();
        push_decimal(&mut key, *self as u32);
        proof {
            assert(key@ =~= decimal(*self as nat));
        }
        key
    }
}

impl AsKey for Id {
    open spec fn key_bytes(&self) -> Seq<u8> {
        self@
    }

    fn as_key(&self) -> (key: Vec<u8>) {
        copy_bytes(self.as_bytes())
    }
}

/// A copy of `bytes`.
pub fn copy_bytes(bytes: &[u8]) -> (copy: Vec<u8>)
    ensures
        copy@ == bytes@,
{
    let mut copy: Vec<u8> = Vec::new();
    let mut i: usize = 0;
    while i < bytes.len()
        invariant
            i <= bytes@.len(),
            copy@ == bytes@.subrange(0, i as int),
        decreases bytes@.len() - i,
    {
        copy.push(bytes[i]);
        proof {
            assert(copy@ =~= bytes@.subrange(0, i + 1));
        }
        i = i + 1;
    }
    proof {
        assert(copy@ =~= bytes@);
    }
    copy
}

/// Appends one part to a key.
pub fn push_key<K: AsKey + ?Sized>(key: &mut Vec<u8>, part: &K)
    ensures
        final(key)@ == old(key)@ + part.key_bytes(),
{
    let mut bytes = part.as_key();
    key.append(&mut bytes);
}

/// The separator between the parts of a key.
pub const SEPARATOR: &'static str = ":";

/// The key `kind:id`.
pub open spec fn entity_key(kind: &str, id: Seq<u8>) -> Seq<u8> {
    kind.spec_bytes() + SEPARATOR.spec_bytes() + id
}

/// The key `kind:id:n`, with `n` in decimal.
pub open spec fn revision_key(kind: &str, id: Seq<u8>, n: u32) -> Seq<u8> {
    kind.spec_bytes() + SEPARATOR.spec_bytes() + id + SEPARATOR.spec_bytes() + decimal(n as nat)
}

/// The key `set:kind:id`.
pub open spec fn member_set_key(set: &str, kind: &str, id: Seq<u8>) -> Seq<u8> {
    set.spec_bytes() + SEPARATOR.spec_bytes() + kind.spec_bytes() + SEPARATOR.spec_bytes() + id
}

/// The key under which the current revision of an entity is kept.
pub fn make_entity_key(kind: &str, id: &Id) -> (key: Vec<u8>)
    ensures
        key@ == entity_key(kind, id@),
{
    let mut key = kind.as_key();
    push_key(&mut key, SEPARATOR);
    push_key(&mut key, id);
    key
}

/// The key under which revision `n` of an entity is kept.
pub fn make_revision_key(kind: &str, id: &Id, n: u32) -> (key: Vec<u8>)
    ensures
        key@ == revision_key(kind, id@, n),
{
    let mut key = make_entity_key(kind, id);
    push_key(&mut key, SEPARATOR);
    push_key(&mut key, &n);
    key
}

/// The key of the sorted set `set` that belongs to the entity `kind:id`.
pub fn make_member_set_key(set: &str, kind: &str, id: &Id) -> (key: Vec<u8>)
    ensures
        key@ == member_set_key(set, kind, id@),
{
    let mut key = set.as_key();
    push_key(&mut key, SEPARATOR);
    push_key(&mut key, kind);
    push_key(&mut key, SEPARATOR);
    push_key(&mut key, id);
    key
}

/// Two revisions of one entity are kept under different keys.
pub proof fn lemma_revision_keys_differ(kind: &str, id: Seq<u8>, a: u32, b: u32)
    requires
        a != b,
    ensures
        revision_key(kind, id, a) != revision_key(kind, id, b),
{
    let head = kind.spec_bytes() + SEPARATOR.spec_bytes() + id + SEPARATOR.spec_bytes();
    let ka = revision_key(kind, id, a);
    let kb = revision_key(kind, id, b);
    if ka == kb {
        assert(ka.subrange(head.len() as int, ka.len() as int) =~= decimal(a as nat));
        assert(kb.subrange(head.len() as int, kb.len() as int) =~= decimal(b as nat));
        lemma_decimal_injective(a as nat, b as nat);
    }
}

/// Two entities of one kind are kept under different keys, and so are their
/// revisions, whatever their numbers.
pub proof fn lemma_entities_have_their_own_keys(kind: &str, a: u32, b: u32, n: u32, m: u32)
    requires
        a != b,
    ensures
        entity_key(kind, numeric_id(a)) != entity_key(kind, numeric_id(b)),
        revision_key(kind, numeric_id(a), n) != revision_key(kind, numeric_id(b), m),
{
    let head = kind.spec_bytes() + SEPARATOR.spec_bytes();
    let start = head.len() as int;
    let end = start + ID_LENGTH as int;
    let ka = entity_key(kind, numeric_id(a));
    let kb = entity_key(kind, numeric_id(b));
    let ra = revision_key(kind, numeric_id(a), n);
    let rb = revision_key(kind, numeric_id(b), m);
    assert(ka.subrange(start, end) =~= numeric_id(a));
    assert(kb.subrange(start, end) =~= numeric_id(b));
    assert(ra.subrange(start, end) =~= numeric_id(a));
    assert(rb.subrange(start, end) =~= numeric_id(b));
    if numeric_id(a) == numeric_id(b) {
        lemma_numeric_id_injective(a, b);
    }
}

} // verus!
