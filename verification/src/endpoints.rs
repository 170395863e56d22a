//! Lookups over the endpoint registry.
//!
//! Each entry describes one market-data endpoint: its method name, a
//! description, the category and subcategory it is grouped under, its
//! parameters in call order, and its return type. The registry itself is
//! reference data handed in by the caller; the parameter and return type
//! discriminants are type parameters.

use vstd::prelude::*;

use crate::text::str_eq;

verus! {

/// Metadata of one endpoint parameter.
#[derive(Debug, Clone)]
pub struct ParamMeta<P> {
    pub name: &'static str,
    pub description: &'static str,
    pub param_type: P,
    pub required: bool,
}

/// Metadata of one endpoint.
#[derive(Debug, Clone)]
pub struct EndpointMeta<P: 'static, R> {
    pub name: &'static str,
    pub description: &'static str,
    pub category: &'static str,
    pub subcategory: &'static str,
    pub rest_path: &'static str,
    pub params: &'static [ParamMeta<P>],
    pub returns: R,
}

/// Whether `i` is the first index of `table` whose entry is named `name`.
pub open spec fn is_first_named<P, R>(table: Seq<EndpointMeta<P, R>>, name: Seq<char>, i: int) -> bool {
    &&& 0 <= i < table.len()
    &&& table[i].name@ == name
    &&& forall|j: int| 0 <= j < i ==> #[trigger] table[j].name@ != name
}

/// Find an endpoint by its method name: the first entry so named.
pub fn find<'a, P, R>(table: &'a [EndpointMeta<P, R>], name: &str) -> (r: Option<&'a EndpointMeta<P, R>>)
    ensures
        match r {
            Some(e) => exists|i: int| is_first_named(table@, name@, i) && *e == table@[i],
            None => forall|i: int| 0 <= i < table@.len() ==> #[trigger] table@[i].name@ != name@,
        },
{
    let mut i: usize = 0;
    while i < table.len()
        invariant
            i <= table@.len(),
            forall|j: int| 0 <= j < i ==> #[trigger] table@[j].name@ != name@,
        decreases table@.len() - i,
    {
        if str_eq(table[i].name, name) {
            assert(is_first_named(table@, name@, i as int));
            return Some(&table[i]);
        }
        i = i + 1;
    }
    None
}

/// Whether an endpoint belongs to category `cat`.
pub open spec fn in_category<P, R>(cat: Seq<char>) -> spec_fn(EndpointMeta<P, R>) -> bool {
    |e: EndpointMeta<P, R>| e.category@ == cat
}

/// All endpoints in category `cat`, in registry order.
pub fn by_category<'a, P, R>(table: &'a [EndpointMeta<P, R>], cat: &str) -> (r: Vec<&'a EndpointMeta<P, R>>)
    ensures
        r@.len() == table@.filter(in_category(cat@)).len(),
        forall|k: int| 0 <= k < r@.len() ==> *#[trigger] r@[k] == table@.filter(in_category(cat@))[k],
{
    let mut out: Vec<&'a EndpointMeta<P, R>> = Vec::new();
    let mut i: usize = 0;
    while i < table.len()
        invariant
            i <= table@.len(),
            out@.len() == table@.take(i as int).filter(in_category(cat@)).len(),
            forall|k: int|
                0 <= k < out@.len() ==> *#[trigger] out@[k] == table@.take(i as int).filter(
                    in_category(cat@),
                )[k],
        decreases table@.len() - i,
    {
        proof {
            assert(table@.take(i + 1) =~= table@.take(i as int).push(table@[i as int]));
            table@.take(i as int).lemma_filter_push(table@[i as int], in_category(cat@));
        }
        if str_eq(table[i].category, cat) {
            out.push(&table[i]);
        }
        i = i + 1;
    }
    proof {
        assert(table@.take(table@.len() as int) =~= table@);
    }
    out
}


/// The symbols of a request whose wire field is a repeated string: one
/// symbol or several, in the order given.
pub struct SymbolInput(Vec<String>);

impl View for SymbolInput {
    type V = Seq<Seq<char>>;

    closed spec fn view(&self) -> Seq<Seq<char>> {
        Seq::new(self.0@.len(), |i: int| self.0@[i]@)
    }
}

impl SymbolInput {
    /// One symbol.
    pub fn single(value: String) -> (r: SymbolInput)
        ensures
            r@ == seq![value@],
    {
        let mut symbols: Vec<String> = Vec::new();
        symbols.push(value);
        let r = SymbolInput(symbols);
        assert(r@ =~= seq![value@]);
        r
    }

    /// One symbol, copied from a string slice.
    pub fn from_str_slice(value: &str) -> (r: SymbolInput)
        ensures
            r@ == seq![value@],
    {
        SymbolInput::single(value.to_owned())
    }

    /// Several symbols, copied from string slices, in order.
    pub fn from_strs(values: &[&str]) -> (r: SymbolInput)
        ensures
            r@ == Seq::new(values@.len(), |i: int| values@[i]@),
    {
        let mut symbols: Vec<String> = Vec::new();
        for i in 0..values.len()
            invariant
                symbols@.len() == i,
                forall|j: int| 0 <= j < i ==> #[trigger] symbols@[j]@ == values@[j]@,
        {
            symbols.push(values[i].to_owned());
        }
        let r = SymbolInput(symbols);
        assert(r@ =~= Seq::new(values@.len(), |i: int| values@[i]@));
        r
    }

    /// Several symbols, taken as they are.
    pub fn from_strings(values: Vec<String>) -> (r: SymbolInput)
        ensures
            r@ == Seq::new(values@.len(), |i: int| values@[i]@),
    {
        SymbolInput(values)
    }

    /// The symbols, in order.
    pub fn into_vec(self) -> (r: Vec<String>)
        ensures
            Seq::new(r@.len(), |i: int| r@[i]@) == self@,
    {
        self.0
    }
}

} // verus!
