//! String interning: a table that maps each distinct string to a small
//! integer symbol, backed by the `string_interner` crate.

use string_interner::backend::StringBackend;
use string_interner::{DefaultHashBuilder, DefaultSymbol, StringInterner, Symbol as _};
use vstd::prelude::*;

verus! {

/// Handle standing for an interned string: the position of that string in
/// the interner's table.
pub type Symbol = u32;

/// The string table: an outside interner with the string backend and its
/// default 32-bit symbols, held in a private field.
#[verifier::external_body]
pub struct Interner {
    inner: StringInterner<StringBackend<DefaultSymbol>, DefaultHashBuilder>,
}

/// The strings held by an outside interner, in the order in which they were
/// first interned: the string at position `k` is the one of symbol `k`.
pub uninterp spec fn interned(i: Interner) -> Seq<Seq<char>>;

/// Relies on `StringInterner::new`: a fresh interner holds no string.
#[verifier::external_body]
fn raw_new() -> (r: Interner)
    ensures
        interned(r) == Seq::<Seq<char>>::empty(),
{
    Interner { inner: StringInterner::new() }
}

/// Relies on `StringInterner::get_or_intern` with the string backend: a string
/// already held keeps its symbol; a new one is appended and gets the next
/// index. It panics only when a new string finds no `u32` symbol left.
#[verifier::external_body]
fn raw_get_or_intern(i: &mut Interner, s: &str) -> (r: u32)
    requires
        interned(*old(i)).contains(s@) || interned(*old(i)).len() < u32::MAX,
    ensures
        interned(*old(i)).contains(s@) ==> interned(*final(i)) == interned(*old(i)),
        !interned(*old(i)).contains(s@) ==> interned(*final(i)) == interned(*old(i)).push(s@),
        interned(*final(i)).len() <= u32::MAX,
        (r as int) < interned(*final(i)).len(),
        interned(*final(i))[r as int] == s@,
{
    i.inner.get_or_intern(s).to_usize() as u32
}

/// Relies on `Symbol::try_from_usize` for the default symbol and on
/// `StringInterner::resolve`: the string at the symbol's index, if any.
#[verifier::external_body]
fn raw_resolve(i: &Interner, sym: u32) -> (r: Option<&str>)
    ensures
        (sym as int) < interned(*i).len() && interned(*i).len() <= u32::MAX ==> r.is_some()
            && r.unwrap()@ == interned(*i)[sym as int],
        (sym as int) >= interned(*i).len() ==> r.is_none(),
{
    match DefaultSymbol::try_from_usize(sym as usize) {
        Some(s) => i.inner.resolve(s),
        None => None,
    }
}

/// No string occurs twice in the table.
pub open spec fn distinct_strings(t: Seq<Seq<char>>) -> bool {
    forall|a: int, b: int| 0 <= a < b < t.len() ==> t[a] != t[b]
}

/// The table after interning `s`: unchanged when `s` is already held,
/// otherwise `s` appended.
pub open spec fn intern_table(t: Seq<Seq<char>>, s: Seq<char>) -> Seq<Seq<char>> {
    if t.contains(s) {
        t
    } else {
        t.push(s)
    }
}

/// The symbol that interning `s` into `t` hands out: the position of `s`
/// when it is already held, otherwise the next free position.
pub open spec fn intern_symbol(t: Seq<Seq<char>>, s: Seq<char>) -> int {
    if t.contains(s) {
        t.index_of(s)
    } else {
        t.len() as int
    }
}

/// What resolving `sym` against `t` gives.
pub open spec fn resolve_spec(t: Seq<Seq<char>>, sym: int) -> Option<Seq<char>> {
    if 0 <= sym < t.len() {
        Some(t[sym])
    } else {
        None
    }
}

impl View for Interner {
    type V = Seq<Seq<char>>;

    open spec fn view(&self) -> Seq<Seq<char>> {
        interned(*self)
    }
}

impl Interner {
    /// The table holds distinct strings, each with a `u32` symbol.
    pub open spec fn wf(&self) -> bool {
        distinct_strings(self@) && self@.len() <= u32::MAX
    }

    /// An empty interner.
    pub fn new() -> (r: Interner)
        ensures
            r.wf(),
            r@ == Seq::<Seq<char>>::empty(),
    {
        raw_new()
    }

    /// Interns `s`: returns its symbol, adding it to the table when it is new.
    pub fn intern(&mut self, s: &str) -> (r: Symbol)
        requires
            old(self).wf(),
            old(self)@.contains(s@) || old(self)@.len() < u32::MAX,
        ensures
            final(self).wf(),
            final(self)@ == intern_table(old(self)@, s@),
            r as int == intern_symbol(old(self)@, s@),
    {
        let r = raw_get_or_intern(self, s);
        proof {
            let t = old(self)@;
            if t.contains(s@) {
                assert(t[t.index_of(s@)] == s@);
            } else {
                assert forall|a: int, b: int| 0 <= a < b < self@.len() implies self@[a] != self@[b] by {
                    if b == t.len() {
                        assert(t[a] == self@[a]);
                    }
                }
            }
        }
        r
    }

    /// The string of `sym`, or `None` when no string has that symbol.
    pub fn resolve(&self, sym: Symbol) -> (r: Option<&str>)
        requires
            self.wf(),
        ensures
            r.is_some() == resolve_spec(self@, sym as int).is_some(),
            r.is_some() ==> Some(r.unwrap()@) == resolve_spec(self@, sym as int),
    {
        raw_resolve(self, sym)
    }
}

/// Interning then resolving gives the string back, and interning the same
/// string again hands out the same symbol and leaves the table as it was.
pub proof fn lemma_intern_resolve(t: Seq<Seq<char>>, s: Seq<char>)
    requires
        distinct_strings(t),
    ensures
        resolve_spec(intern_table(t, s), intern_symbol(t, s)) == Some(s),
        intern_symbol(intern_table(t, s), s) == intern_symbol(t, s),
        intern_table(intern_table(t, s), s) == intern_table(t, s),
{
    let t1 = intern_table(t, s);
    if t.contains(s) {
        assert(t[t.index_of(s)] == s);
    } else {
        assert(t1[t.len() as int] == s);
        assert(t1.contains(s));
        let k = t1.index_of(s);
        assert(t1[k] == s);
        if k < t.len() {
            assert(t.contains(s));
        }
    }
}

} // verus!
