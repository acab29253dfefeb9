//! The parameter binder: matches the values that a caller supplied against
//! the parameters that an operation declares.

use crate::errors::{outcome, ErrorKind, Errors};
use crate::openapi::{Endpoint, ParameterLocation, ParameterView, parameter_views};
use crate::text::same_text;
use vstd::prelude::*;

verus! {

/// One value that the caller supplied, under the name of a parameter.
#[derive(Debug, Clone)]
pub struct SuppliedValue {
    pub name: String,
    pub value: String,
}

/// The values that the caller supplied. Where a name occurs more than once,
/// its first value counts.
#[derive(Debug, Clone)]
pub struct SuppliedValues {
    pub values: Vec<SuppliedValue>,
}

/// One supplied value, bound to the parameter that it belongs to.
#[derive(Debug, Clone)]
pub struct BoundValue {
    pub name: String,
    pub location: ParameterLocation,
    pub value: String,
}

/// A bound value as the contracts see it.
pub struct BoundValueView {
    pub name: Seq<char>,
    pub location: ParameterLocation,
    pub value: Seq<char>,
}

impl View for BoundValue {
    type V = BoundValueView;

    open spec fn view(&self) -> BoundValueView {
        BoundValueView { name: self.name@, location: self.location, value: self.value@ }
    }
}

/// The supplied values of one invocation, each with the location of its
/// parameter, in the order in which the operation declares the parameters.
#[derive(Debug, Clone)]
pub struct BoundRequest {
    pub values: Vec<BoundValue>,
}

impl View for BoundRequest {
    type V = Seq<BoundValueView>;

    open spec fn view(&self) -> Seq<BoundValueView> {
        self.values@.map_values(|v: BoundValue| v@)
    }
}

/// The value supplied under `name` at position `from` or later, if any: the
/// first one.
pub open spec fn lookup_from(supplied: Seq<SuppliedValue>, from: int, name: Seq<char>) -> Option<
    Seq<char>,
>
    decreases supplied.len() - from,
{
    if from < 0 || from >= supplied.len() {
        None
    } else if supplied[from].name@ == name {
        Some(supplied[from].value@)
    } else {
        lookup_from(supplied, from + 1, name)
    }
}

/// The value supplied under `name`, if any.
pub open spec fn lookup(supplied: Seq<SuppliedValue>, name: Seq<char>) -> Option<Seq<char>> {
    lookup_from(supplied, 0, name)
}

/// Whether `param` must have a value and was given none.
pub open spec fn is_missing(param: ParameterView, supplied: Seq<SuppliedValue>) -> bool {
    param.required && lookup(supplied, param.name) is None
}

/// The bound values of `params`: in their order, each parameter that was
/// given a value, with that value. Parameters without a value are left out.
pub open spec fn bound_values(params: Seq<ParameterView>, supplied: Seq<SuppliedValue>) -> Seq<
    BoundValueView,
>
    decreases params.len(),
{
    if params.len() == 0 {
        Seq::empty()
    } else {
        let earlier = bound_values(params.drop_last(), supplied);
        let param = params.last();
        match lookup(supplied, param.name) {
            Some(value) => earlier.push(
                BoundValueView { name: param.name, location: param.location, value },
            ),
            None => earlier,
        }
    }
}

/// The position of the first parameter at `from` or later that must have a
/// value and was given none.
pub open spec fn first_missing(params: Seq<ParameterView>, supplied: Seq<SuppliedValue>, from: int) -> Option<
    int,
>
    decreases params.len() - from,
{
    if from < 0 || from >= params.len() {
        None
    } else if is_missing(params[from], supplied) {
        Some(from)
    } else {
        first_missing(params, supplied, from + 1)
    }
}

/// What binding `supplied` to `params` gives: the name of the first required
/// parameter without a value, or else the bound values.
pub open spec fn binding(params: Seq<ParameterView>, supplied: Seq<SuppliedValue>) -> Result<
    Seq<BoundValueView>,
    ErrorKind,
> {
    match first_missing(params, supplied, 0) {
        Some(k) => Err(ErrorKind::MissingRequiredParameter { name: params[k].name }),
        None => Ok(bound_values(params, supplied)),
    }
}

impl SuppliedValues {
    /// No values.
    pub fn new() -> (out: SuppliedValues)
        ensures
            out.values@.len() == 0,
    {
        SuppliedValues { values: Vec::new() }
    }

    /// Adds `value` under `name`, after the values already there.
    pub fn supply(&mut self, name: String, value: String)
        ensures
            final(self).values@ == old(self).values@.push((SuppliedValue { name, value })),
    {
        self.values.push(SuppliedValue { name, value });
    }

    /// The value supplied under `name`, if any.
    pub fn get(&self, name: &str) -> (found: Option<&String>)
        ensures
            match found {
                Some(value) => lookup(self.values@, name@) == Some(value@),
                None => lookup(self.values@, name@) is None,
            },
    {
        let mut i: usize = 0;
        while i < self.values.len()
            invariant
                i <= self.values.len(),
                lookup(self.values@, name@) == lookup_from(self.values@, i as int, name@),
            decreases self.values.len() - i,
        {
            if same_text(self.values[i].name.as_str(), name) {
                return Some(&self.values[i].value);
            }
            i += 1;
        }
        None
    }
}

/// Binds the supplied values to the parameters of `endpoint`.
///
/// Fails on the first required parameter, in declaration order, that was
/// given no value, and names it. Otherwise every parameter that was given a
/// value is bound to it, in declaration order, and optional parameters
/// without a value are left out.
pub fn bind(endpoint: &Endpoint, supplied: &SuppliedValues) -> (bound: Result<BoundRequest, Errors>)
    ensures
        outcome(bound) == binding(endpoint@.params, supplied.values@),
{
    let mut values: Vec<BoundValue> = Vec::new();
    let ghost params = endpoint@.params;
    let mut i: usize = 0;
    while i < endpoint.params.len()
        invariant
            i <= endpoint.params.len(),
            params == parameter_views(endpoint.params@),
            first_missing(params, supplied.values@, 0) == first_missing(
                params,
                supplied.values@,
                i as int,
            ),
            values@.map_values(|v: BoundValue| v@) == bound_values(
                params.take(i as int),
                supplied.values@,
            ),
        decreases endpoint.params.len() - i,
    {
        let param = &endpoint.params[i];
        assert(params.take(i + 1).drop_last() == params.take(i as int));
        match supplied.get(param.name.as_str()) {
            Some(value) => {
                let bound = BoundValue {
                    name: param.name.clone(),
                    location: param.location,
                    value: value.clone(),
                };
                values.push(bound);
            },
            None => {
                if param.required {
                    return Err(Errors::MissingRequiredParameterError { name: param.name.clone() });
                }
            },
        }
        i += 1;
    }
    assert(params.take(i as int) == params);
    Ok(BoundRequest { values })
}

/// A required parameter without a value makes binding fail, wherever the
/// parameter is placed and whatever else was supplied; and binding fails for
/// no other reason.
pub proof fn lemma_binding_fails_iff_required_missing(
    params: Seq<ParameterView>,
    supplied: Seq<SuppliedValue>,
)
    ensures
        binding(params, supplied) is Err <==> exists|k: int|
            0 <= k < params.len() && is_missing(#[trigger] params[k], supplied),
        binding(params, supplied) matches Err(e) ==> e is MissingRequiredParameter,
{
    lemma_first_missing(params, supplied, 0);
}

/// `first_missing` finds a missing parameter exactly where there is one, and
/// then the first.
pub proof fn lemma_first_missing(params: Seq<ParameterView>, supplied: Seq<SuppliedValue>, from: int)
    requires
        0 <= from,
    ensures
        first_missing(params, supplied, from) is None <==> forall|k: int|
            from <= k < params.len() ==> !is_missing(#[trigger] params[k], supplied),
        first_missing(params, supplied, from) matches Some(k) ==> from <= k < params.len()
            && is_missing(params[k], supplied) && forall|j: int|
            from <= j < k ==> !is_missing(#[trigger] params[j], supplied),
    decreases params.len() - from,
{
    if from < params.len() && !is_missing(params[from], supplied) {
        lemma_first_missing(params, supplied, from + 1);
    }
}

} // verus!
