//! Finding the inputs and outputs of Moonshine networks by name. Exports
//! differ in what they call them, so several candidates are tried.

use vstd::prelude::*;

use crate::text::chars::{ascii_lowercase, lowercase_text, to_lowercase_text};
use crate::text::strings::{
    concat, contains, contains_str, eq_ignoring_ascii_case, opt_view, same_ignoring_ascii_case,
    str_eq, views,
};

verus! {

/// Element types of tensors.
#[derive(Debug, Clone)]
pub enum ElementType {
    Bool,
    Int32,
    Int64,
    Float32,
    /// Any other, by its name.
    Other(String),
}

/// What an [`ElementType`] is.
pub enum ElementModel {
    Bool,
    Int32,
    Int64,
    Float32,
    Other(Seq<char>),
}

impl View for ElementType {
    type V = ElementModel;

    open spec fn view(&self) -> ElementModel {
        match self {
            ElementType::Bool => ElementModel::Bool,
            ElementType::Int32 => ElementModel::Int32,
            ElementType::Int64 => ElementModel::Int64,
            ElementType::Float32 => ElementModel::Float32,
            ElementType::Other(name) => ElementModel::Other(name@),
        }
    }
}

/// The name of an element type.
pub open spec fn element_text(e: ElementModel) -> Seq<char> {
    match e {
        ElementModel::Bool => "Bool"@,
        ElementModel::Int32 => "Int32"@,
        ElementModel::Int64 => "Int64"@,
        ElementModel::Float32 => "Float32"@,
        ElementModel::Other(name) => name,
    }
}

impl ElementType {
    /// The name of the element type.
    pub fn to_string(&self) -> (r: String)
        ensures
            r@ == element_text(self@),
    {
        match self {
            ElementType::Bool => "Bool".to_owned(),
            ElementType::Int32 => "Int32".to_owned(),
            ElementType::Int64 => "Int64".to_owned(),
            ElementType::Float32 => "Float32".to_owned(),
            ElementType::Other(name) => name.clone(),
        }
    }

    /// A copy of the element type.
    pub fn duplicate(&self) -> (r: ElementType)
        ensures
            r@ == self@,
    {
        match self {
            ElementType::Bool => ElementType::Bool,
            ElementType::Int32 => ElementType::Int32,
            ElementType::Int64 => ElementType::Int64,
            ElementType::Float32 => ElementType::Float32,
            ElementType::Other(name) => ElementType::Other(name.clone()),
        }
    }
}

/// The type and shape of a tensor; a negative dimension is open.
#[derive(Debug, Clone)]
pub struct TensorInfo {
    pub element: ElementType,
    pub shape: Vec<i64>,
}

/// An input of a network: its name and, where it is a tensor, its type.
#[derive(Debug, Clone)]
pub struct InputInfo {
    pub name: String,
    pub tensor: Option<TensorInfo>,
}

/// The inputs and outputs of a network.
#[derive(Debug, Clone)]
pub struct SessionInfo {
    pub inputs: Vec<InputInfo>,
    pub outputs: Vec<String>,
}

/// The names of a list of inputs.
pub open spec fn input_names(inputs: Seq<InputInfo>) -> Seq<Seq<char>> {
    inputs.map_values(|i: InputInfo| i.name@)
}

/// The error that no candidate fits.
#[derive(Debug, Clone)]
pub struct UnresolvedName {
    pub label: String,
    pub candidates: Vec<String>,
    pub available: Vec<String>,
}

/// Whether `name` is `candidate`, up to the case of ASCII letters.
pub open spec fn same_name(name: Seq<char>, candidate: Seq<char>) -> bool {
    same_ignoring_ascii_case(name, candidate)
}

/// Whether `name` contains `candidate`, both in lower case.
pub open spec fn similar_name(name: Seq<char>, candidate: Seq<char>) -> bool {
    contains(lowercase_text(name), lowercase_text(candidate))
}

/// Whether `name` fits `candidate`, exactly or loosely.
pub open spec fn fits(name: Seq<char>, candidate: Seq<char>, exact: bool) -> bool {
    if exact {
        same_name(name, candidate)
    } else {
        similar_name(name, candidate)
    }
}

/// The first of `names`, from `from` on, that fits a candidate.
pub open spec fn first_fit(
    names: Seq<Seq<char>>,
    candidate: Seq<char>,
    exact: bool,
    from: int,
) -> Option<int>
    decreases names.len() - from,
{
    if from >= names.len() {
        None
    } else if fits(names[from], candidate, exact) {
        Some(from)
    } else {
        first_fit(names, candidate, exact, from + 1)
    }
}

/// The name that the first candidate fits, of the candidates from `from` on.
pub open spec fn best_fit(
    names: Seq<Seq<char>>,
    candidates: Seq<Seq<char>>,
    exact: bool,
    from: int,
) -> Option<int>
    decreases candidates.len() - from,
{
    if from >= candidates.len() {
        None
    } else {
        match first_fit(names, candidates[from], exact, 0) {
            Some(i) => Some(i),
            None => best_fit(names, candidates, exact, from + 1),
        }
    }
}

/// The name found for a list of candidates: one that is a candidate, earlier
/// candidates first; failing that, one that contains a candidate.
pub open spec fn found(names: Seq<Seq<char>>, candidates: Seq<Seq<char>>) -> Option<int> {
    match best_fit(names, candidates, true, 0) {
        Some(i) => Some(i),
        None => best_fit(names, candidates, false, 0),
    }
}

/// The name resolved: the only one there is, else the one found.
pub open spec fn resolved(names: Seq<Seq<char>>, candidates: Seq<Seq<char>>) -> Option<Seq<char>> {
    if names.len() == 1 {
        Some(names[0])
    } else {
        match found(names, candidates) {
            Some(i) => Some(names[i]),
            None => None,
        }
    }
}

/// The name found, where there is one.
pub open spec fn found_name(names: Seq<Seq<char>>, candidates: Seq<Seq<char>>) -> Option<Seq<char>> {
    match found(names, candidates) {
        Some(i) => Some(names[i]),
        None => None,
    }
}

proof fn lemma_first_fit(names: Seq<Seq<char>>, candidate: Seq<char>, exact: bool, from: int)
    requires
        0 <= from,
    ensures
        first_fit(names, candidate, exact, from) matches Some(i) ==> from <= i < names.len()
            && fits(names[i], candidate, exact),
    decreases names.len() - from,
{
    if from < names.len() && !fits(names[from], candidate, exact) {
        lemma_first_fit(names, candidate, exact, from + 1);
    }
}

proof fn lemma_best_fit(
    names: Seq<Seq<char>>,
    candidates: Seq<Seq<char>>,
    exact: bool,
    from: int,
)
    requires
        0 <= from,
    ensures
        best_fit(names, candidates, exact, from) matches Some(i) ==> 0 <= i < names.len() && exists|
            k: int,
        |
            from <= k < candidates.len() && fits(names[i], #[trigger] candidates[k], exact),
    decreases candidates.len() - from,
{
    if from < candidates.len() {
        lemma_first_fit(names, candidates[from], exact, 0);
        if first_fit(names, candidates[from], exact, 0) is None {
            lemma_best_fit(names, candidates, exact, from + 1);
        }
    }
}

/// A name that is found is one of those available, and is or contains one of
/// the candidates.
pub proof fn law_found_name_fits(names: Seq<Seq<char>>, candidates: Seq<Seq<char>>)
    ensures
        found(names, candidates) matches Some(i) ==> 0 <= i < names.len() && exists|k: int|
            0 <= k < candidates.len() && (same_name(names[i], #[trigger] candidates[k])
                || similar_name(names[i], candidates[k])),
{
    lemma_best_fit(names, candidates, true, 0);
    lemma_best_fit(names, candidates, false, 0);
    if let Some(i) = best_fit(names, candidates, true, 0) {
        let k = choose|k: int|
            0 <= k < candidates.len() && fits(names[i], #[trigger] candidates[k], true);
        assert(same_name(names[i], candidates[k]));
    } else if let Some(i) = best_fit(names, candidates, false, 0) {
        let k = choose|k: int|
            0 <= k < candidates.len() && fits(names[i], #[trigger] candidates[k], false);
        assert(similar_name(names[i], candidates[k]));
    }
}

fn name_fits(name: &str, candidate: &str, exact: bool) -> (r: bool)
    ensures
        r == fits(name@, candidate@, exact),
{
    if exact {
        eq_ignoring_ascii_case(name, candidate)
    } else {
        contains_str(
            to_lowercase_text(name).as_str(),
            to_lowercase_text(candidate).as_str(),
        )
    }
}

fn find_fit(names: &Vec<String>, candidates: &Vec<String>, exact: bool) -> (r: Option<usize>)
    ensures
        match best_fit(views(names@), views(candidates@), exact, 0) {
            Some(i) => r matches Some(k) && k == i && 0 <= i < names@.len(),
            None => r is None,
        },
{
    let ghost all = views(names@);
    let ghost wanted = views(candidates@);
    let mut k: usize = 0;
    while k < candidates.len()
        invariant
            all == views(names@),
            wanted == views(candidates@),
            k <= candidates@.len(),
            best_fit(all, wanted, exact, 0) == best_fit(all, wanted, exact, k as int),
        decreases candidates@.len() - k,
    {
        let mut i: usize = 0;
        assert(wanted[k as int] == candidates@[k as int]@);
        while i < names.len()
            invariant
                all == views(names@),
                wanted == views(candidates@),
                k < candidates@.len(),
                i <= names@.len(),
                best_fit(all, wanted, exact, 0) == best_fit(all, wanted, exact, k as int),
                wanted[k as int] == candidates@[k as int]@,
                first_fit(all, wanted[k as int], exact, 0) == first_fit(
                    all,
                    wanted[k as int],
                    exact,
                    i as int,
                ),
            decreases names@.len() - i,
        {
            assert(all[i as int] == names@[i as int]@);
            if name_fits(names[i].as_str(), candidates[k].as_str(), exact) {
                return Some(i);
            }
            i += 1;
        }
        k += 1;
    }
    None
}

fn find_name(names: &Vec<String>, candidates: &Vec<String>) -> (r: Option<usize>)
    ensures
        match found(views(names@), views(candidates@)) {
            Some(i) => r matches Some(k) && k == i && 0 <= i < names@.len(),
            None => r is None,
        },
{
    match find_fit(names, candidates, true) {
        Some(i) => Some(i),
        None => find_fit(names, candidates, false),
    }
}

/// A copy of a list of texts.
pub fn copy_list(list: &Vec<String>) -> (r: Vec<String>)
    ensures
        views(r@) == views(list@),
{
    let mut r: Vec<String> = Vec::new();
    let mut i: usize = 0;
    while i < list.len()
        invariant
            i <= list@.len(),
            r@.len() == i,
            forall|j: int| 0 <= j < i ==> (#[trigger] r@[j])@ == list@[j]@,
        decreases list@.len() - i,
    {
        r.push(list[i].clone());
        i += 1;
    }
    assert(views(r@) =~= views(list@)) by {
        assert forall|j: int| 0 <= j < views(r@).len() implies views(r@)[j] == views(list@)[j] by {
            assert(views(r@)[j] == r@[j]@);
        }
    }
    r
}

/// Resolves the name of an input or output among those available.
pub fn resolve_name(names: &Vec<String>, candidates: &Vec<String>, label: &str) -> (r: Result<
    String,
    UnresolvedName,
>)
    ensures
        match resolved(views(names@), views(candidates@)) {
            Some(name) => r matches Ok(n) && n@ == name,
            None => {
                &&& r matches Err(e)
                &&& e.label@ == label@
                &&& views(e.candidates@) == views(candidates@)
                &&& views(e.available@) == views(names@)
            },
        },
{
    let ghost all = views(names@);
    if names.len() == 1 {
        assert(all[0] == names@[0]@);
        return Ok(names[0].clone());
    }
    match find_name(names, candidates) {
        Some(i) => {
            assert(all[i as int] == names@[i as int]@);
            Ok(names[i].clone())
        },
        None => Err(
            UnresolvedName {
                label: label.to_owned(),
                candidates: copy_list(candidates),
                available: copy_list(names),
            },
        ),
    }
}

/// The names of a list of inputs.
pub fn names_of(inputs: &Vec<InputInfo>) -> (r: Vec<String>)
    ensures
        views(r@) == input_names(inputs@),
{
    let mut r: Vec<String> = Vec::new();
    let mut i: usize = 0;
    while i < inputs.len()
        invariant
            i <= inputs@.len(),
            r@.len() == i,
            forall|j: int| 0 <= j < i ==> (#[trigger] r@[j])@ == inputs@[j].name@,
        decreases inputs@.len() - i,
    {
        r.push(inputs[i].name.clone());
        i += 1;
    }
    assert(views(r@) =~= input_names(inputs@)) by {
        assert forall|j: int| 0 <= j < views(r@).len() implies views(r@)[j] == input_names(
            inputs@,
        )[j] by {
            assert(views(r@)[j] == r@[j]@);
        }
    }
    r
}

/// Resolves the name of an input that a network need not have.
pub fn resolve_optional_input_name(inputs: &Vec<InputInfo>, candidates: &Vec<String>) -> (r: Option<
    String,
>)
    ensures
        opt_view(r) == found_name(input_names(inputs@), views(candidates@)),
{
    let names = names_of(inputs);
    match find_name(&names, candidates) {
        Some(i) => {
            assert(views(names@)[i as int] == names@[i as int]@);
            Some(names[i].clone())
        },
        None => None,
    }
}

/// The first of the inputs, from `from` on, that is a tensor and fits a
/// candidate.
pub open spec fn first_tensor_fit(
    inputs: Seq<InputInfo>,
    candidate: Seq<char>,
    exact: bool,
    from: int,
) -> Option<int>
    decreases inputs.len() - from,
{
    if from >= inputs.len() {
        None
    } else if fits(inputs[from].name@, candidate, exact) && inputs[from].tensor is Some {
        Some(from)
    } else {
        first_tensor_fit(inputs, candidate, exact, from + 1)
    }
}

/// The tensor input that the first candidate fits, of the candidates from
/// `from` on.
pub open spec fn best_tensor_fit(
    inputs: Seq<InputInfo>,
    candidates: Seq<Seq<char>>,
    exact: bool,
    from: int,
) -> Option<int>
    decreases candidates.len() - from,
{
    if from >= candidates.len() {
        None
    } else {
        match first_tensor_fit(inputs, candidates[from], exact, 0) {
            Some(i) => Some(i),
            None => best_tensor_fit(inputs, candidates, exact, from + 1),
        }
    }
}

/// The tensor input found for a list of candidates.
pub open spec fn found_tensor(inputs: Seq<InputInfo>, candidates: Seq<Seq<char>>) -> Option<int> {
    match best_tensor_fit(inputs, candidates, true, 0) {
        Some(i) => Some(i),
        None => best_tensor_fit(inputs, candidates, false, 0),
    }
}

fn find_tensor_fit(inputs: &Vec<InputInfo>, candidates: &Vec<String>, exact: bool) -> (r: Option<
    usize,
>)
    ensures
        match best_tensor_fit(inputs@, views(candidates@), exact, 0) {
            Some(i) => r matches Some(k) && k == i && 0 <= i < inputs@.len() && inputs@[i].tensor is Some,
            None => r is None,
        },
{
    let ghost wanted = views(candidates@);
    let mut k: usize = 0;
    while k < candidates.len()
        invariant
            wanted == views(candidates@),
            k <= candidates@.len(),
            best_tensor_fit(inputs@, wanted, exact, 0) == best_tensor_fit(
                inputs@,
                wanted,
                exact,
                k as int,
            ),
        decreases candidates@.len() - k,
    {
        let mut i: usize = 0;
        assert(wanted[k as int] == candidates@[k as int]@);
        while i < inputs.len()
            invariant
                wanted == views(candidates@),
                k < candidates@.len(),
                i <= inputs@.len(),
                best_tensor_fit(inputs@, wanted, exact, 0) == best_tensor_fit(
                    inputs@,
                    wanted,
                    exact,
                    k as int,
                ),
                wanted[k as int] == candidates@[k as int]@,
                first_tensor_fit(inputs@, wanted[k as int], exact, 0) == first_tensor_fit(
                    inputs@,
                    wanted[k as int],
                    exact,
                    i as int,
                ),
            decreases inputs@.len() - i,
        {
            if name_fits(inputs[i].name.as_str(), candidates[k].as_str(), exact)
                && inputs[i].tensor.is_some() {
                return Some(i);
            }
            i += 1;
        }
        k += 1;
    }
    None
}

/// Resolves the name and element type of a tensor input that a network need
/// not have.
pub fn resolve_optional_input_type(inputs: &Vec<InputInfo>, candidates: &Vec<String>) -> (r: Option<
    (String, ElementType),
>)
    ensures
        match found_tensor(inputs@, views(candidates@)) {
            Some(i) => r matches Some((name, element)) && name@ == inputs@[i].name@ && element@
                == inputs@[i].tensor->0.element@,
            None => r is None,
        },
{
    let at = match find_tensor_fit(inputs, candidates, true) {
        Some(i) => Some(i),
        None => find_tensor_fit(inputs, candidates, false),
    };
    match at {
        Some(i) => match &inputs[i].tensor {
            Some(t) => Some((inputs[i].name.clone(), t.element.duplicate())),
            None => None,
        },
        None => None,
    }
}

/// Whether an input carries past state.
pub open spec fn cache_name(name: Seq<char>) -> bool {
    contains(lowercase_text(name), "past"@) || contains(lowercase_text(name), "key_values"@)
}

/// Whether an output carries present state.
pub open spec fn present_name(name: Seq<char>) -> bool {
    contains(lowercase_text(name), "present"@) || contains(lowercase_text(name), "key_values"@)
}

/// Tests whether an input carries past state.
pub fn is_cache_tensor(name: &str) -> (r: bool)
    ensures
        r == cache_name(name@),
{
    let lower = to_lowercase_text(name);
    contains_str(lower.as_str(), "past") || contains_str(lower.as_str(), "key_values")
}

/// Tests whether an output carries present state.
pub fn is_present_tensor(name: &str) -> (r: bool)
    ensures
        r == present_name(name@),
{
    let lower = to_lowercase_text(name);
    contains_str(lower.as_str(), "present") || contains_str(lower.as_str(), "key_values")
}

/// The names that carry state, in order: past state of inputs, present state
/// of outputs.
pub open spec fn state_names(names: Seq<Seq<char>>, past: bool) -> Seq<Seq<char>>
    decreases names.len(),
{
    if names.len() == 0 {
        Seq::empty()
    } else {
        let before = state_names(names.drop_last(), past);
        let last = names.last();
        if (past && cache_name(last)) || (!past && present_name(last)) {
            before.push(last)
        } else {
            before
        }
    }
}

/// The names that carry state, in order.
pub fn names_with_state(names: &Vec<String>, past: bool) -> (r: Vec<String>)
    ensures
        views(r@) == state_names(views(names@), past),
{
    let ghost all = views(names@);
    let mut r: Vec<String> = Vec::new();
    let mut i: usize = 0;
    assert(views(r@) =~= state_names(all.take(0), past));
    while i < names.len()
        invariant
            all == views(names@),
            i <= names@.len(),
            views(r@) == state_names(all.take(i as int), past),
        decreases names@.len() - i,
    {
        assert(all.take(i + 1).drop_last() =~= all.take(i as int));
        assert(all.take(i + 1).last() == names@[i as int]@);
        let carries = if past {
            is_cache_tensor(names[i].as_str())
        } else {
            is_present_tensor(names[i].as_str())
        };
        if carries {
            let ghost before = views(r@);
            let name = names[i].clone();
            r.push(name);
            assert(views(r@) =~= before.push(name@));
        }
        i += 1;
    }
    assert(all.take(i as int) =~= all);
    r
}

/// The first input of that very name, from `from` on.
pub open spec fn input_at(inputs: Seq<InputInfo>, name: Seq<char>, from: int) -> Option<int>
    decreases inputs.len() - from,
{
    if from >= inputs.len() {
        None
    } else if inputs[from].name@ == name {
        Some(from)
    } else {
        input_at(inputs, name, from + 1)
    }
}

/// Finds the first input of that very name.
pub fn find_input(inputs: &Vec<InputInfo>, name: &str) -> (r: Option<usize>)
    ensures
        match input_at(inputs@, name@, 0) {
            Some(i) => r matches Some(k) && k == i && 0 <= i < inputs@.len(),
            None => r is None,
        },
{
    let mut i: usize = 0;
    while i < inputs.len()
        invariant
            i <= inputs@.len(),
            input_at(inputs@, name@, 0) == input_at(inputs@, name@, i as int),
        decreases inputs@.len() - i,
    {
        if str_eq(inputs[i].name.as_str(), name) {
            return Some(i);
        }
        i += 1;
    }
    None
}

/// The shape of the input named, or why it has none.
pub open spec fn input_shape(inputs: Seq<InputInfo>, name: Seq<char>) -> Result<
    Seq<i64>,
    Seq<char>,
> {
    match input_at(inputs, name, 0) {
        None => Err("Cached decoder missing input: "@ + name),
        Some(i) => match inputs[i].tensor {
            Some(t) => Ok(t.shape@),
            None => Err("Cached decoder input is not a tensor: "@ + name),
        },
    }
}

/// The shape of an input of the cached decoder.
pub fn cached_input_shape(inputs: &Vec<InputInfo>, name: &str) -> (r: Result<Vec<i64>, String>)
    ensures
        match input_shape(inputs@, name@) {
            Ok(shape) => r matches Ok(s) && s@ == shape,
            Err(e) => r matches Err(f) && f@ == e,
        },
{
    match find_input(inputs, name) {
        None => Err(concat("Cached decoder missing input: ", name)),
        Some(i) => match &inputs[i].tensor {
            Some(t) => {
                let shape = crate::samples::copy_range(t.shape.as_slice(), 0, t.shape.len());
                assert(shape@ =~= t.shape@);
                Ok(shape)
            },
            None => Err(concat("Cached decoder input is not a tensor: ", name)),
        },
    }
}

/// Whether `candidates[k]` with `names[i]` is the first pair that fits: no earlier
/// candidate fits any name, and the candidate fits no earlier name.
pub open spec fn first_pair(
    names: Seq<Seq<char>>,
    candidates: Seq<Seq<char>>,
    exact: bool,
    i: int,
    k: int,
) -> bool {
    &&& 0 <= k < candidates.len()
    &&& 0 <= i < names.len()
    &&& fits(names[i], candidates[k], exact)
    &&& forall|j: int| 0 <= j < i ==> !fits(#[trigger] names[j], candidates[k], exact)
    &&& forall|j: int, l: int|
        0 <= j < names.len() && 0 <= l < k ==> !fits(
            #[trigger] names[j],
            #[trigger] candidates[l],
            exact,
        )
}

/// Whether no candidate fits any name.
pub open spec fn nothing_fits(
    names: Seq<Seq<char>>,
    candidates: Seq<Seq<char>>,
    exact: bool,
) -> bool {
    forall|j: int, l: int|
        0 <= j < names.len() && 0 <= l < candidates.len() ==> !fits(
            #[trigger] names[j],
            #[trigger] candidates[l],
            exact,
        )
}

proof fn lemma_first_fit_is_first(
    names: Seq<Seq<char>>,
    candidate: Seq<char>,
    exact: bool,
    from: int,
)
    requires
        0 <= from,
    ensures
        match first_fit(names, candidate, exact, from) {
            Some(i) => {
                &&& from <= i < names.len()
                &&& fits(names[i], candidate, exact)
                &&& forall|j: int| from <= j < i ==> !fits(#[trigger] names[j], candidate, exact)
            },
            None => forall|j: int|
                from <= j < names.len() ==> !fits(#[trigger] names[j], candidate, exact),
        },
    decreases names.len() - from,
{
    if from < names.len() && !fits(names[from], candidate, exact) {
        lemma_first_fit_is_first(names, candidate, exact, from + 1);
    }
}

proof fn lemma_best_fit_is_first(
    names: Seq<Seq<char>>,
    candidates: Seq<Seq<char>>,
    exact: bool,
    from: int,
)
    requires
        0 <= from,
        forall|j: int, l: int|
            0 <= j < names.len() && 0 <= l < from && l < candidates.len() ==> !fits(
                #[trigger] names[j],
                #[trigger] candidates[l],
                exact,
            ),
    ensures
        match best_fit(names, candidates, exact, from) {
            Some(i) => exists|k: int| first_pair(names, candidates, exact, i, k),
            None => nothing_fits(names, candidates, exact),
        },
    decreases candidates.len() - from,
{
    if from < candidates.len() {
        lemma_first_fit_is_first(names, candidates[from], exact, 0);
        match first_fit(names, candidates[from], exact, 0) {
            Some(i) => {
                assert(first_pair(names, candidates, exact, i, from));
            },
            None => {
                lemma_best_fit_is_first(names, candidates, exact, from + 1);
            },
        }
    }
}

/// An exact name wins over a similar one, an earlier candidate over a later one,
/// and of the names that fit it the first; and a name is found wherever any fits.
pub proof fn law_the_best_name_is_found(names: Seq<Seq<char>>, candidates: Seq<Seq<char>>)
    ensures
        match found(names, candidates) {
            Some(i) => (exists|k: int| first_pair(names, candidates, true, i, k)) || (nothing_fits(
                names,
                candidates,
                true,
            ) && exists|k: int| first_pair(names, candidates, false, i, k)),
            None => nothing_fits(names, candidates, true) && nothing_fits(names, candidates, false),
        },
        forall|a: Seq<char>, b: Seq<char>| #[trigger]
            fits(a, b, true) <==> ascii_lowercase(a) == ascii_lowercase(b),
        forall|a: Seq<char>, b: Seq<char>| #[trigger]
            fits(a, b, false) <==> contains(lowercase_text(a), lowercase_text(b)),
        names.len() == 1 ==> resolved(names, candidates) == Some(names[0]),
        names.len() != 1 ==> resolved(names, candidates) == found_name(names, candidates),
{
    lemma_best_fit_is_first(names, candidates, true, 0);
    lemma_best_fit_is_first(names, candidates, false, 0);
}

/// The names that carry state are all of those that say so, in order: past state
/// is called past or key values, present state present or key values.
pub proof fn law_state_names(names: Seq<Seq<char>>, past: bool)
    ensures
        state_names(names, past) == names.filter(
            |n: Seq<char>|
                contains(lowercase_text(n), "key_values"@) || contains(
                    lowercase_text(n),
                    if past {
                        "past"@
                    } else {
                        "present"@
                    },
                ),
        ),
    decreases names.len(),
{
    reveal(Seq::filter);
    if names.len() > 0 {
        law_state_names(names.drop_last(), past);
    }
}

} // verus!
