//! The symbol table: named entries with resolved index values. Names are
//! case-sensitive and looked up linearly; the first match wins.

use crate::strutil::str_eq;
use vstd::prelude::*;

verus! {

#[derive(Debug, Clone, Copy, PartialEq, Eq, Structural)]
pub enum SymbolType {
    Label,
}

/// The mathematical model of a symbol: its name's characters, its
/// resolved index and its kind.
pub struct SpecSymbol {
    pub name: Seq<char>,
    pub index: usize,
    pub symbol_type: SymbolType,
}

/// A named entry: the label's name and the heap index it resolves to.
#[derive(Debug, Clone)]
pub struct Symbol {
    name: String,
    index: usize,
    symbol_type: SymbolType,
}

impl View for Symbol {
    type V = SpecSymbol;

    closed spec fn view(&self) -> SpecSymbol {
        SpecSymbol { name: self.name@, index: self.index, symbol_type: self.symbol_type }
    }
}

impl DeepView for Symbol {
    type V = SpecSymbol;

    open spec fn deep_view(&self) -> SpecSymbol {
        self.view()
    }
}

impl Symbol {
    pub fn new(name: String, symbol_type: SymbolType, index: usize) -> (s: Symbol)
        ensures
            s@ == (SpecSymbol { name: name@, index, symbol_type }),
    {
        Symbol { name, symbol_type, index }
    }
}

/// The index of the first symbol named `name`, if any.
pub open spec fn spec_symbol_value(syms: Seq<SpecSymbol>, name: Seq<char>) -> Option<usize>
    decreases syms.len(),
{
    if syms.len() == 0 {
        None
    } else if syms[0].name == name {
        Some(syms[0].index)
    } else {
        spec_symbol_value(syms.drop_first(), name)
    }
}

/// Whether any symbol is named `name`.
pub open spec fn spec_has_symbol(syms: Seq<SpecSymbol>, name: Seq<char>) -> bool {
    spec_symbol_value(syms, name) is Some
}

/// Every symbol named `name` resolved to `index`; other symbols as they
/// were.
pub open spec fn spec_set_symbol_index(
    syms: Seq<SpecSymbol>,
    name: Seq<char>,
    index: usize,
) -> Seq<SpecSymbol> {
    Seq::new(
        syms.len(),
        |i: int|
            if syms[i].name == name {
                SpecSymbol { name: syms[i].name, index, symbol_type: syms[i].symbol_type }
            } else {
                syms[i]
            },
    )
}

/// Ordered collection of symbols; lookup is linear.
#[derive(Debug, Clone)]
pub struct SymbolTable {
    pub symbols: Vec<Symbol>,
}

impl View for SymbolTable {
    type V = Seq<SpecSymbol>;

    open spec fn view(&self) -> Seq<SpecSymbol> {
        self.symbols.deep_view()
    }
}

impl SymbolTable {
    pub fn new() -> (t: SymbolTable)
        ensures
            t@ =~= Seq::<SpecSymbol>::empty(),
    {
        SymbolTable { symbols: Vec::new() }
    }

    pub fn add_symbol(&mut self, s: Symbol)
        ensures
            final(self)@ =~= old(self)@.push(s@),
    {
        self.symbols.push(s);
        proof {
            assert(self@ =~= old(self)@.push(s@));
        }
    }

    /// The resolved index of the first symbol named `s`, if one exists.
    pub fn symbol_value(&self, s: &str) -> (r: Option<usize>)
        ensures
            r == spec_symbol_value(self@, s@),
    {
        let n = self.symbols.len();
        let mut i: usize = 0;
        proof {
            assert(self@.skip(0) =~= self@);
        }
        while i < n
            invariant
                i <= n,
                n == self@.len(),
                n == self.symbols@.len(),
                spec_symbol_value(self@, s@) == spec_symbol_value(self@.skip(i as int), s@),
            decreases n - i,
        {
            proof {
                assert(self@.skip(i as int)[0] == self@[i as int]);
                assert(self@.skip(i as int).drop_first() =~= self@.skip(i as int + 1));
            }
            if str_eq(self.symbols[i].name.as_str(), s) {
                return Some(self.symbols[i].index);
            }
            i += 1;
        }
        proof {
            assert(self@.skip(n as int) =~= Seq::<SpecSymbol>::empty());
        }
        None
    }

    /// Whether a symbol named `s` has been declared.
    pub fn has_symbol(&self, s: &str) -> (r: bool)
        ensures
            r == spec_has_symbol(self@, s@),
    {
        self.symbol_value(s).is_some()
    }

    /// Resolves every symbol named `s` to `index`; other symbols are
    /// untouched.
    pub fn set_symbol_index(&mut self, s: &str, index: usize)
        ensures
            final(self)@ == spec_set_symbol_index(old(self)@, s@, index),
    {
        let n = self.symbols.len();
        let mut i: usize = 0;
        while i < n
            invariant
                i <= n,
                n == self.symbols@.len(),
                n == old(self)@.len(),
                forall|j: int| i <= j < n ==> self@[j] == old(self)@[j],
                forall|j: int|
                    0 <= j < i ==> self@[j] == spec_set_symbol_index(old(self)@, s@, index)[j],
            decreases n - i,
        {
            let ghost pre = self@;
            let ghost presyms = self.symbols@;
            if str_eq(self.symbols[i].name.as_str(), s) {
                let idx_sym = Symbol {
                    name: self.symbols[i].name.clone(),
                    index,
                    symbol_type: self.symbols[i].symbol_type,
                };
                self.symbols[i] = idx_sym;
                proof {
                    assert(self.symbols@[i as int]@ == (SpecSymbol {
                        name: old(self)@[i as int].name,
                        index,
                        symbol_type: old(self)@[i as int].symbol_type,
                    }));
                }
            }
            proof {
                let upd = spec_set_symbol_index(old(self)@, s@, index);
                assert(forall|j: int|
                    0 <= j < n && j != i ==> self.symbols@[j] == presyms[j]);
                assert forall|j: int| 0 <= j < n && j != i implies self@[j] == pre[j] by {
                    assert(self@[j] == self.symbols@[j]@);
                    assert(pre[j] == presyms[j]@);
                }
                assert(self@[i as int] == self.symbols@[i as int]@);
                assert(self@[i as int] == upd[i as int]);
                assert forall|j: int| 0 <= j < i + 1 implies self@[j] == upd[j] by {
                    if j != i {
                        assert(self@[j] == pre[j]);
                        assert(pre[j] == upd[j]);
                    }
                }
                assert forall|j: int| i + 1 <= j < n implies self@[j] == old(self)@[j] by {
                    assert(self@[j] == pre[j]);
                    assert(pre[j] == old(self)@[j]);
                }
            }
            i += 1;
        }
        proof {
            assert(self@ =~= spec_set_symbol_index(old(self)@, s@, index));
        }
    }
}

} // verus!
