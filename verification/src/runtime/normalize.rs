//! How an engine wants the identifiers of a query written.
use vstd::hash_map::StringHashMap;
use vstd::prelude::*;

verus! {

/// What an engine does to the identifiers of a query before it runs the query.
pub trait Normalizer {
    /// The quotation mark for identifiers, if they are to be quoted.
    spec fn quote(&self) -> Option<char>;

    /// What stands in the query in place of each parameter, by the parameter's name.
    spec fn replacements(&self) -> Map<Seq<char>, String>;

    /// The quotation mark for identifiers, if they are to be quoted.
    fn quote_style(&self) -> (res: Option<char>)
        ensures
            res == self.quote(),
    ;

    /// What stands in the query in place of each parameter, by the parameter's name.
    fn params(&self) -> (res: &StringHashMap<String>)
        ensures
            res@ == self.replacements(),
    ;
}

} // verus!
