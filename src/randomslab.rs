//! A slab of values keyed by tokens `index:label`, where the label is drawn
//! at random on every insertion: a token whose slot was freed and filled
//! again no longer matches, although its index points at live data.

use vstd::prelude::*;
use slab::Slab as KeyedSlots;
use crate::text::{
    chars_of, decimal, find_colon, first_colon, lemma_split_at, lemma_token_is_canonical,
    lemma_token_round_trip, parse_index, parse_usize, push_char, push_decimal, split_token,
    token_text,
};

verus! {

#[verifier::external_type_specification]
#[verifier::external_body]
#[verifier::reject_recursive_types(T)]
pub struct ExKeyedSlots<T>(KeyedSlots<T>);

/// The outside slab that hands out slot keys and keeps each slot's label.
type Slots = KeyedSlots<Label>;

/// The random part of a token, as bytes.
pub type Label = [u8; 8];

/// The label held in each occupied slot of a slab of labels, by key.
pub uninterp spec fn slot_labels(s: Slots) -> Map<nat, Seq<u8>>;

/// The number of slots of a slab of labels, occupied or vacant: the length
/// of its array.
pub uninterp spec fn slot_count(s: Slots) -> nat;

/// Relies on slab::Slab::new: a new slab has no slot.
#[verifier::external_body]
fn labels_new() -> (r: Slots)
    ensures
        slot_labels(r).dom() =~= Set::empty(),
        slot_count(r) == 0,
{
    KeyedSlots::new()
}

/// Relies on slab::Slab::insert: the value is stored in a vacant slot, whose
/// key is returned. The key is the head of the slab's list of freed slots;
/// only when that list is empty does the array grow by one slot.
#[verifier::external_body]
fn labels_insert(s: &mut Slots, label: Label) -> (k: usize)
    ensures
        !slot_labels(*old(s)).contains_key(k as nat),
        slot_labels(*final(s)) == slot_labels(*old(s)).insert(k as nat, label@),
        k <= slot_count(*old(s)),
        (k < slot_count(*old(s))) == (exists|j: nat|
            j < slot_count(*old(s)) && !#[trigger] slot_labels(*old(s)).contains_key(j)),
        slot_count(*final(s)) == if k < slot_count(*old(s)) {
            slot_count(*old(s))
        } else {
            slot_count(*old(s)) + 1
        },
{
    s.insert(label)
}

/// Relies on slab::Slab::get: the value of an occupied slot, `None` for any
/// other key.
#[verifier::external_body]
fn labels_get(s: &Slots, k: usize) -> (r: Option<&Label>)
    ensures
        r matches Some(l) ==> slot_labels(*s).contains_key(k as nat) && slot_labels(*s)[k as nat]
            == l@,
        r is None ==> !slot_labels(*s).contains_key(k as nat),
{
    s.get(k)
}

/// Relies on slab::Slab::remove: takes the value out of an occupied slot and
/// frees it (it panics on a vacant key, hence the precondition).
#[verifier::external_body]
fn labels_remove(s: &mut Slots, k: usize) -> (r: Label)
    requires
        slot_labels(*old(s)).contains_key(k as nat),
    ensures
        r@ == slot_labels(*old(s))[k as nat],
        slot_labels(*final(s)) == slot_labels(*old(s)).remove(k as nat),
        slot_count(*final(s)) == slot_count(*old(s)),
{
    s.remove(k)
}

/// Relies on fastrand::alphabetic: a character drawn from `a`-`z` and `A`-`Z`.
pub assume_specification[ fastrand::alphabetic ]() -> (c: char)
    ensures
        ('a' <= c && c <= 'z') || ('A' <= c && c <= 'Z'),
;

/// Whether `c` is an ASCII letter.
pub open spec fn is_letter(c: char) -> bool {
    ('a' <= c && c <= 'z') || ('A' <= c && c <= 'Z')
}

/// Whether `l` can be the label of a slot: eight ASCII letters.
pub open spec fn is_label(l: Seq<char>) -> bool {
    l.len() == 8 && forall|i: int| 0 <= i < l.len() ==> is_letter(#[trigger] l[i])
}

/// The characters of a label stored as bytes.
pub open spec fn label_text(b: Seq<u8>) -> Seq<char> {
    b.map_values(|x: u8| x as char)
}

/// Whether every occupied slot carries a well-formed label.
pub open spec fn labels_ok<T>(m: Map<nat, (Seq<char>, T)>) -> bool {
    forall|n: nat| m.contains_key(n) ==> is_label(#[trigger] m[n].0)
}

/// What a token finds in a slab whose slots are `m`: the value of the slot
/// that the token's index names, if the token's label is that slot's label.
pub open spec fn lookup<T>(m: Map<nat, (Seq<char>, T)>, token: Seq<char>) -> Option<T> {
    match split_token(token) {
        Some((n, label)) => if m.contains_key(n) && m[n].0 == label {
            Some(m[n].1)
        } else {
            None
        },
        None => None,
    }
}

/// A slab of values, each reached through the token that its insertion
/// returned. The outside slab allocates the slots and keeps their labels;
/// the values sit beside it, at the same keys, in an array as long as the
/// slab's (a name for the outside slab's contents cannot be generic over
/// the values' type).
pub struct Slab<T> {
    labels: Slots,
    values: Vec<Option<T>>,
}

impl<T> View for Slab<T> {
    type V = Map<nat, (Seq<char>, T)>;

    /// Each occupied slot, by index, with its label and its value.
    closed spec fn view(&self) -> Map<nat, (Seq<char>, T)> {
        Map::new(
            |n: nat| slot_labels(self.labels).contains_key(n),
            |n: nat| (label_text(slot_labels(self.labels)[n]), self.values@[n as int]->Some_0),
        )
    }
}

/// Eight random ASCII letters.
fn random_label() -> (r: Label)
    ensures
        is_label(label_text(r@)),
{
    let mut r: [u8; 8] = [0u8, 0u8, 0u8, 0u8, 0u8, 0u8, 0u8, 0u8];
    let mut i: usize = 0;
    while i < 8
        invariant
            i <= 8,
            r@.len() == 8,
            forall|j: int| 0 <= j < i ==> is_letter(#[trigger] r@[j] as char),
        decreases 8 - i,
    {
        let c = fastrand::alphabetic();
        r[i] = c as u8;
        i = i + 1;
    }
    r
}

/// The text of the token for slot `n` under `label`.
fn token_for(n: usize, label: &Label) -> (r: String)
    ensures
        r@ == token_text(n as nat, label_text(label@)),
{
    let mut t = String::new();
    push_decimal(&mut t, n);
    push_char(&mut t, ':');
    let ghost head = t@;
    let mut i: usize = 0;
    while i < 8
        invariant
            i <= 8,
            label@.len() == 8,
            head == token_text(n as nat, Seq::empty()),
            t@ == head + label_text(label@).take(i as int),
        decreases 8 - i,
    {
        push_char(&mut t, label[i] as char);
        assert(label_text(label@).take(i + 1) =~= label_text(label@).take(i as int).push(
            label@[i as int] as char,
        ));
        i = i + 1;
    }
    assert(label_text(label@).take(8) =~= label_text(label@));
    assert(t@ =~= token_text(n as nat, label_text(label@)));
    t
}

/// Whether the characters of `s` from `from` on are exactly `label`.
fn label_matches(label: &Label, s: &Vec<char>, from: usize) -> (r: bool)
    requires
        from <= s@.len(),
    ensures
        r == (label_text(label@) == s@.skip(from as int)),
{
    if s.len() - from != 8 {
        assert(label_text(label@).len() == 8);
        return false;
    }
    let mut i: usize = 0;
    while i < 8
        invariant
            i <= 8,
            from + 8 == s.len(),
            label@.len() == 8,
            forall|j: int| 0 <= j < i ==> label@[j] as char == s@[from + j],
        decreases 8 - i,
    {
        if label[i] as char != s[from + i] {
            assert(label_text(label@)[i as int] != s@.skip(from as int)[i as int]);
            return false;
        }
        i = i + 1;
    }
    assert(label_text(label@) =~= s@.skip(from as int));
    true
}

impl<T> Slab<T> {
    /// The slab's internal consistency: a value is stored at exactly the
    /// occupied slots, and every label is eight ASCII letters.
    pub closed spec fn wf(&self) -> bool {
        &&& self.values@.len() == slot_count(self.labels)
        &&& forall|n: nat| #[trigger]
            slot_labels(self.labels).contains_key(n) ==> n < self.values@.len()
                && self.values@[n as int] is Some
        &&& forall|i: int| 0 <= i < self.values@.len() && #[trigger] self.values@[i] is Some
            ==> slot_labels(self.labels).contains_key(i as nat)
        &&& forall|n: nat| #[trigger]
            slot_labels(self.labels).contains_key(n) ==> is_label(
                label_text(slot_labels(self.labels)[n]),
            )
    }

    /// The number of slots, occupied or freed: the length of the array.
    pub closed spec fn slots(&self) -> nat {
        self.values@.len()
    }

    /// A well-formed slab carries well-formed labels only, and each occupied
    /// slot lies within the array.
    pub proof fn lemma_labels(&self)
        requires
            self.wf(),
        ensures
            labels_ok(self@),
            forall|n: nat| #[trigger] self@.contains_key(n) ==> n < self.slots(),
    {
    }

    /// An empty slab.
    pub fn new() -> (r: Self)
        ensures
            r.wf(),
            r@ == Map::<nat, (Seq<char>, T)>::empty(),
            r.slots() == 0,
    {
        let r = Slab { labels: labels_new(), values: Vec::new() };
        assert(r@ =~= Map::<nat, (Seq<char>, T)>::empty());
        r
    }
}

/// A label holds no `:`.
pub proof fn lemma_label_has_no_colon(l: Seq<char>)
    requires
        is_label(l),
    ensures
        !l.contains(':'),
{
    if l.contains(':') {
        let j = choose|j: int| 0 <= j < l.len() && l[j] == ':';
        assert(is_letter(l[j]));
    }
}

/// A token handed out for slot `n` finds that slot's value for as long as
/// the slot holds the label that the token carries.
pub proof fn lemma_issued_token_finds<T>(
    m: Map<nat, (Seq<char>, T)>,
    n: nat,
    label: Seq<char>,
    v: T,
)
    requires
        n <= usize::MAX,
        is_label(label),
        m.contains_key(n),
        m[n] == (label, v),
    ensures
        lookup(m, token_text(n, label)) == Some(v),
{
    lemma_label_has_no_colon(label);
    lemma_token_round_trip(n, label);
}

/// Once its slot has been freed, a token finds nothing.
pub proof fn lemma_removed_token_misses<T>(m: Map<nat, (Seq<char>, T)>, n: nat, label: Seq<char>)
    requires
        n <= usize::MAX,
        is_label(label),
    ensures
        lookup(m.remove(n), token_text(n, label)) is None,
{
    lemma_label_has_no_colon(label);
    lemma_token_round_trip(n, label);
}

/// Once its slot has been filled again under another label, a token finds
/// nothing, although its index names live data.
pub proof fn lemma_reused_slot_token_misses<T>(
    m: Map<nat, (Seq<char>, T)>,
    n: nat,
    label: Seq<char>,
    fresh: Seq<char>,
    v: T,
)
    requires
        n <= usize::MAX,
        is_label(label),
        fresh != label,
    ensures
        lookup(m.insert(n, (fresh, v)), token_text(n, label)) is None,
{
    lemma_label_has_no_colon(label);
    lemma_token_round_trip(n, label);
}

/// Filling or freeing another slot does not change what a token finds.
pub proof fn lemma_other_slot_keeps_token<T>(
    m: Map<nat, (Seq<char>, T)>,
    k: nat,
    e: (Seq<char>, T),
    n: nat,
    label: Seq<char>,
)
    requires
        n <= usize::MAX,
        is_label(label),
        k != n,
    ensures
        lookup(m.insert(k, e), token_text(n, label)) == lookup(m, token_text(n, label)),
        lookup(m.remove(k), token_text(n, label)) == lookup(m, token_text(n, label)),
{
    lemma_label_has_no_colon(label);
    lemma_token_round_trip(n, label);
}

/// A token keeps finding its value while other texts are used: removing
/// what any other text finds leaves it as it was, since no other text
/// reaches the same slot under the same label.
pub proof fn lemma_other_removal_keeps_token<T>(
    m: Map<nat, (Seq<char>, T)>,
    t: Seq<char>,
    other: Seq<char>,
)
    requires
        lookup(m, t) is Some,
        lookup(m, other) is Some,
        other != t,
    ensures
        lookup(m.remove(split_token(other)->Some_0.0), t) == lookup(m, t),
{
    lemma_token_is_canonical(t);
    lemma_token_is_canonical(other);
}

/// A token keeps finding its value across insertions: an insertion only
/// fills a vacant slot.
pub proof fn lemma_insertion_keeps_token<T>(
    m: Map<nat, (Seq<char>, T)>,
    t: Seq<char>,
    k: nat,
    e: (Seq<char>, T),
)
    requires
        lookup(m, t) is Some,
        !m.contains_key(k),
    ensures
        lookup(m.insert(k, e), t) == lookup(m, t),
{
}

/// A malformed token finds nothing in a slab of well-formed labels: one
/// without `:`, one whose index is not a plain decimal numeral, one with a
/// second `:`, or one whose label does not have eight characters.
pub proof fn lemma_malformed_token_misses<T>(m: Map<nat, (Seq<char>, T)>, t: Seq<char>)
    requires
        labels_ok(m),
        (forall|i: int| 0 <= i < t.len() ==> t[i] != ':') || (exists|i: int|
            #[trigger] first_colon(t, i) && !(exists|n: nat|
                n <= usize::MAX && decimal(n) == t.take(i))) || (exists|i: int, j: int|
            #[trigger] first_colon(t, i) && i < j < t.len() && #[trigger] t[j] == ':') || (exists|
            i: int,
        | #[trigger] first_colon(t, i) && t.len() - i - 1 != 8),
    ensures
        lookup(m, t) is None,
{
    if exists|i: int| first_colon(t, i) {
        let i = choose|i: int| first_colon(t, i);
        lemma_split_at(t, i);
        if let Some((n, label)) = split_token(t) {
            assert(decimal(n) == t.take(i));
            assert(!t.skip(i + 1).contains(':'));
            assert forall|i2: int| first_colon(t, i2) implies i2 == i by {
                if i2 < i {
                    assert(t[i2] != ':');
                } else if i2 > i {
                    assert(t[i] != ':');
                }
            }
            if exists|i2: int, j: int| first_colon(t, i2) && i2 < j < t.len() && t[j] == ':' {
                let (i2, j) = choose|i2: int, j: int|
                    first_colon(t, i2) && i2 < j < t.len() && t[j] == ':';
                assert(t.skip(i + 1)[j - i - 1] == ':');
            }
            if m.contains_key(n) && m[n].0 == label {
                assert(is_label(label));
            }
        }
    }
}

/// Reads a token `index:label`, as `split_token` describes: the text
/// before the first `:` is the index, written as a plain decimal numeral,
/// and the rest is the label, which may not hold another `:`.
pub fn split2(s: &str) -> (r: Option<(usize, &str)>)
    ensures
        match split_token(s@) {
            Some((n, label)) => r matches Some((m, rest)) && m as nat == n && rest@ == label,
            None => r is None,
        },
{
    let cs = chars_of(s);
    let i = match find_colon(&cs, 0) {
        Some(i) => i,
        None => {
            assert(!exists|i: int| first_colon(s@, i));
            return None;
        },
    };
    proof {
        lemma_split_at(s@, i as int);
        assert(cs@.subrange(0, i as int) =~= s@.take(i as int));
    }
    let n = parse_index(&cs, 0, i)?;
    let mut numeral = String::new();
    push_decimal(&mut numeral, n);
    let head = s.substring_char(0, i);
    if !(numeral == head.to_owned()) {
        return None;
    }
    let rest = s.substring_char(i + 1, cs.len());
    assert(rest@ =~= s@.skip(i + 1));
    match find_colon(&cs, i + 1) {
        Some(j) => {
            assert(rest@[j - i - 1] == ':');
            return None;
        },
        None => {},
    }
    Some((n, rest))
}

impl<T> Slab<T> {
    /// Finds the slot that `key` names, if its label matches.
    fn locate(&self, key: &str) -> (r: Option<usize>)
        requires
            self.wf(),
        ensures
            r matches Some(n) ==> split_token(key@) matches Some((m, label)) && m == n
                && self@.contains_key(m) && self@[m].0 == label,
            r is None ==> lookup(self@, key@) is None,
    {
        let (n, label) = split2(key)?;
        let cs = chars_of(label);
        match labels_get(&self.labels, n) {
            None => None,
            Some(l) => {
                if label_matches(l, &cs, 0) {
                    assert(cs@.skip(0) =~= cs@);
                    Some(n)
                } else {
                    assert(cs@.skip(0) =~= cs@);
                    None
                }
            },
        }
    }

    /// The value that `key` finds: present exactly when the token's index
    /// names an occupied slot whose label is the token's label.
    pub fn get(&self, key: &str) -> (r: Option<&T>)
        requires
            self.wf(),
        ensures
            match lookup(self@, key@) {
                Some(v) => r matches Some(x) && *x == v,
                None => r is None,
            },
    {
        match self.locate(key) {
            None => None,
            Some(n) => self.values[n].as_ref(),
        }
    }

    /// Takes out the value that `key` finds and frees its slot; a key that
    /// finds nothing leaves the slab as it is.
    pub fn remove(&mut self, key: &str) -> (r: Option<T>)
        requires
            old(self).wf(),
        ensures
            final(self).wf(),
            r == lookup(old(self)@, key@),
            r is Some ==> final(self)@ == old(self)@.remove(split_token(key@)->Some_0.0),
            r is None ==> final(self)@ == old(self)@,
            final(self).slots() == old(self).slots(),
    {
        match self.locate(key) {
            None => None,
            Some(n) => {
                labels_remove(&mut self.labels, n);
                let mut out: Option<T> = None;
                self.values.set_and_swap(n, &mut out);
                assert(self@ =~= old(self)@.remove(n as nat));
                out
            },
        }
    }

    /// Stores `t` in a vacant slot under a fresh random label, and returns
    /// the token `index:label` that reaches it. A freed slot is reused
    /// whenever there is one; only otherwise does the array grow by one.
    pub fn insert(&mut self, t: T) -> (token: String)
        requires
            old(self).wf(),
        ensures
            final(self).wf(),
            split_token(token@) matches Some((n, label)) && token@ == token_text(n, label)
                && !old(self)@.contains_key(n) && is_label(label) && final(self)@ == old(
                self,
            )@.insert(n, (label, t)) && n <= old(self).slots() && (n < old(self).slots()) == (
            exists|j: nat| j < old(self).slots() && !#[trigger] old(self)@.contains_key(j))
                && final(self).slots() == if n < old(self).slots() {
                old(self).slots()
            } else {
                old(self).slots() + 1
            },
    {
        let label = random_label();
        let ghost before = self.labels;
        let k = labels_insert(&mut self.labels, label);
        proof {
            if exists|j: nat| j < old(self).slots() && !#[trigger] old(self)@.contains_key(j) {
                let j = choose|j: nat|
                    j < old(self).slots() && !#[trigger] old(self)@.contains_key(j);
                assert(!slot_labels(before).contains_key(j));
            }
            if exists|j: nat|
                j < slot_count(before) && !#[trigger] slot_labels(before).contains_key(j) {
                let j = choose|j: nat|
                    j < slot_count(before) && !#[trigger] slot_labels(before).contains_key(j);
                assert(!old(self)@.contains_key(j));
            }
        }
        if k == self.values.len() {
            self.values.push(Some(t));
        } else {
            self.values.set(k, Some(t));
        }
        proof {
            lemma_label_has_no_colon(label_text(label@));
            lemma_token_round_trip(k as nat, label_text(label@));
            assert(self@ =~= old(self)@.insert(k as nat, (label_text(label@), t)));
        }
        token_for(k, &label)
    }
}

} // verus!
