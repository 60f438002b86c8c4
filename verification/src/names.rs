//! The names that occur in a program, each known by a number.

use vstd::prelude::*;
use crate::source::copy_bytes;
use crate::types::Symbol;

verus! {

/// Compare two byte strings.
pub fn same_bytes(a: &[u8], b: &[u8]) -> (r: bool)
    ensures
        r == (a@ == b@),
{
    if a.len() != b.len() {
        return false;
    }
    let mut i: usize = 0;
    while i < a.len()
        invariant
            i <= a.len(),
            a@.len() == b@.len(),
            a@.take(i as int) =~= b@.take(i as int),
        decreases a.len() - i,
    {
        if a[i] != b[i] {
            assert(a@[i as int] != b@[i as int]);
            return false;
        }
        i += 1;
        assert(a@.take(i as int) =~= b@.take(i as int));
    }
    assert(a@.take(a@.len() as int) =~= a@);
    assert(b@.take(b@.len() as int) =~= b@);
    true
}

/// The byte strings of a list, each in its mathematical form.
pub open spec fn name_views(names: Seq<Vec<u8>>) -> Seq<Seq<u8>> {
    Seq::new(names.len(), |k: int| names[k]@)
}

/// Where a text first stands in a list from `k` on; past the end if nowhere.
pub open spec fn position(names: Seq<Seq<u8>>, text: Seq<u8>, k: nat) -> nat
    decreases names.len() - k,
{
    if k >= names.len() {
        names.len()
    } else if names[k as int] == text {
        k
    } else {
        position(names, text, k + 1)
    }
}

/// The names after a text was looked up, and the symbol of the text.
#[verifier::opaque]
pub open spec fn interned(names: Seq<Seq<u8>>, text: Seq<u8>) -> (Seq<Seq<u8>>, Symbol) {
    let at = position(names, text, 0);
    if at < names.len() {
        (names, Symbol(at as usize))
    } else {
        (names.push(text), Symbol(names.len() as usize))
    }
}

/// No name occurs twice.
pub open spec fn distinct(names: Seq<Seq<u8>>) -> bool {
    forall|a: int, b: int| 0 <= a < b < names.len() ==> names[a] != names[b]
}

proof fn position_is_first(names: Seq<Seq<u8>>, text: Seq<u8>, k: nat)
    requires
        k <= names.len(),
    ensures
        k <= position(names, text, k) <= names.len(),
        position(names, text, k) < names.len() ==> names[position(names, text, k) as int] == text,
        forall|a: int| k <= a < position(names, text, k) ==> names[a] != text,
    decreases names.len() - k,
{
    if k < names.len() && names[k as int] != text {
        position_is_first(names, text, k + 1);
    }
}

/// Looking up a text keeps all names where they are, gives back a symbol that
/// stands for the text, and keeps names distinct.
pub proof fn interned_symbol_stands_for_its_text(names: Seq<Seq<u8>>, text: Seq<u8>)
    requires
        distinct(names),
        names.len() < usize::MAX,
    ensures
        ({
            let (after, symbol) = interned(names, text);
            &&& names.is_prefix_of(after)
            &&& symbol.0 < after.len()
            &&& after[symbol.0 as int] == text
            &&& distinct(after)
        }),
{
    reveal(interned);
    position_is_first(names, text, 0);
}

/// Two texts get the same symbol exactly if they are the same text.
pub proof fn interned_symbols_tell_texts_apart(names: Seq<Seq<u8>>, a: Seq<u8>, b: Seq<u8>)
    requires
        distinct(names),
        names.len() < usize::MAX - 1,
    ensures
        (interned(names, a).1 == interned(interned(names, a).0, b).1) <==> a == b,
{
    interned_symbol_stands_for_its_text(names, a);
    let (after, symbol) = interned(names, a);
    assert(after.len() <= names.len() + 1) by {
        reveal(interned);
    }
    interned_symbol_stands_for_its_text(after, b);
    let (last, other) = interned(after, b);
    assert(last[symbol.0 as int] == after[symbol.0 as int]);
}

/// The interned names.
pub struct Names {
    pub texts: Vec<Vec<u8>>,
}

impl Names {
    pub open spec fn view(&self) -> Seq<Seq<u8>> {
        name_views(self.texts@)
    }

    /// No names at all.
    pub fn new() -> (r: Names)
        ensures
            r@ == Seq::<Seq<u8>>::empty(),
    {
        let r = Names { texts: Vec::new() };
        assert(r@ =~= Seq::<Seq<u8>>::empty());
        r
    }

    /// Return the symbol of a text, which becomes a name if it is none.
    #[verifier::loop_isolation(false)]
    pub fn intern(&mut self, text: &[u8]) -> (r: Symbol)
        ensures
            interned(old(self)@, text@) == (final(self)@, r),
    {
        proof {
            reveal(interned);
        }
        let mut k: usize = 0;
        while k < self.texts.len()
            invariant
                k <= self.texts.len(),
                *self == *old(self),
                position(self@, text@, 0) == position(self@, text@, k as nat),
            decreases self.texts.len() - k,
        {
            assert(self@[k as int] == self.texts@[k as int]@);
            if same_bytes(self.texts[k].as_slice(), text) {
                return Symbol(k);
            }
            k += 1;
        }
        self.texts.push(copy_bytes(text));
        assert(self@ =~= old(self)@.push(text@));
        Symbol(k)
    }

    /// Return whether a symbol stands for the given text.
    pub fn is(&self, symbol: Symbol, text: &str) -> (r: bool)
        ensures
            r == names_it(self@, symbol, text@),
    {
        symbol.0 < self.texts.len() && same_bytes(
            self.texts[symbol.0].as_slice(),
            text.as_bytes(),
        )
    }
}

/// Whether a symbol stands for the given text.
pub open spec fn names_it(names: Seq<Seq<u8>>, symbol: Symbol, text: Seq<char>) -> bool {
    symbol.0 < names.len() && names[symbol.0 as int] == vstd::utf8::encode_utf8(text)
}

} // verus!
