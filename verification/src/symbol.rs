//! Interned names.
use vstd::prelude::*;
use crate::text::same_text;

verus! {

/// A name, as a handle into the [Interner] that issued it.
///
/// Symbols are ordered by their handles.
#[derive(Clone, Copy, PartialEq, Eq, PartialOrd, Ord, Debug, Hash, Structural)]
pub struct Symbol {
    pub index: u32,
}

impl Symbol {
    /// The symbol of the empty text.
    pub fn empty() -> (symbol: Symbol)
        ensures
            symbol.index == 0,
    {
        Symbol { index: 0 }
    }
}

/// The table of the texts that symbols stand for.
pub struct Interner {
    names: Vec<String>,
}

impl View for Interner {
    type V = Seq<Seq<char>>;

    closed spec fn view(&self) -> Seq<Seq<char>> {
        Seq::new(self.names@.len(), |i: int| self.names@[i]@)
    }
}

impl Interner {
    /// No text is held twice, so that two symbols are equal exactly if their texts are, and the
    /// empty text is always there.
    pub open spec fn wf(&self) -> bool {
        &&& forall|i: int, j: int| 0 <= i < j < self@.len() ==> self@[i] != self@[j]
        &&& self@.len() > 0
        &&& self@[0] == Seq::<char>::empty()
    }

    /// Every symbol of `older` stands for the same text in this table.
    pub open spec fn extends(&self, older: &Interner) -> bool {
        &&& older@.len() <= self@.len()
        &&& forall|i: int| 0 <= i < older@.len() ==> self@[i] == #[trigger] older@[i]
    }

    /// Whether `symbol` was issued by this table.
    pub open spec fn knows(&self, symbol: Symbol) -> bool {
        symbol.index < self@.len()
    }

    /// The text that `symbol` stands for.
    pub open spec fn text(&self, symbol: Symbol) -> Seq<char> {
        self@[symbol.index as int]
    }

    /// A table that holds the empty text alone.
    pub fn new() -> (interner: Interner)
        ensures
            interner.wf(),
            interner@ == seq![Seq::<char>::empty()],
    {
        let mut names: Vec<String> = Vec::new();
        names.push(String::new());
        let interner = Interner { names };
        assert(interner@ == seq![Seq::<char>::empty()]);
        interner
    }

    /// How many texts the table holds.
    pub fn len(&self) -> (len: usize)
        ensures
            len == self@.len(),
    {
        self.names.len()
    }

    /// The symbol of `text`, if the table holds it.
    pub fn find(&self, text: &str) -> (found: Option<Symbol>)
        requires
            self.wf(),
            self@.len() <= u32::MAX,
        ensures
            match found {
                Some(symbol) => self.knows(symbol) && self.text(symbol) == text@,
                None => !self@.contains(text@),
            },
    {
        let mut i: usize = 0;
        while i < self.names.len()
            invariant
                i <= self.names@.len() <= u32::MAX,
                self@.len() == self.names@.len(),
                forall|j: int| 0 <= j < i ==> self@[j] != text@,
            decreases self.names@.len() - i,
        {
            if same_text(self.names[i].as_str(), text) {
                return Some(Symbol { index: i as u32 });
            }
            i = i + 1;
        }
        None
    }

    /// The symbol of `text`, which is added to the table unless it is there.
    pub fn intern(&mut self, text: &str) -> (symbol: Symbol)
        requires
            old(self).wf(),
            old(self)@.len() < u32::MAX,
        ensures
            final(self).wf(),
            final(self).knows(symbol),
            final(self).text(symbol) == text@,
            old(self)@.contains(text@) ==> final(self)@ == old(self)@,
            !old(self)@.contains(text@) ==> final(self)@ == old(self)@.push(text@),
            final(self).extends(old(self)),
    {
        match self.find(text) {
            Some(symbol) => {
                assert(self@[symbol.index as int] == text@);
                symbol
            },
            None => {
                let symbol = Symbol { index: self.names.len() as u32 };
                self.names.push(text.to_owned());
                assert(self@ == old(self)@.push(text@));
                symbol
            },
        }
    }

    /// The text of `symbol`.
    pub fn as_str(&self, symbol: Symbol) -> (text: &str)
        requires
            self.knows(symbol),
        ensures
            text@ == self.text(symbol),
    {
        self.names[symbol.index as usize].as_str()
    }
}

/// Interning never changes what an issued symbol stands for.
pub proof fn interning_keeps_symbols(before: Interner, after: Interner, text: Seq<char>, symbol: Symbol)
    requires
        before.knows(symbol),
        after@ == before@ || after@ == before@.push(text),
    ensures
        after.knows(symbol),
        after.text(symbol) == before.text(symbol),
{
}

/// Two symbols of one table are equal exactly if their texts are.
pub proof fn symbols_are_texts(interner: Interner, a: Symbol, b: Symbol)
    requires
        interner.wf(),
        interner.knows(a),
        interner.knows(b),
    ensures
        a == b <==> interner.text(a) == interner.text(b),
{
}

} // verus!
