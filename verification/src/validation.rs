//! Validation errors: nested errors as a validator reports them, their
//! flattening into a list of per-field errors, and lookups by field.
use vstd::prelude::*;

use crate::text::{
    copy_strings, decimal, has_prefix, location_from_path, location_of, starts_with,
    strings_view, usize_to_decimal,
};

verus! {

/// One validation failure of one field.
#[derive(Debug, Clone, Default, PartialEq, Eq)]
pub struct ValidationError {
    /// What kind of check failed (such as `"length"`).
    pub code: String,
    /// The message meant for the user, if any.
    pub message: Option<String>,
    /// Where the failing field sits, as `"/"`-separated path segments.
    pub location: String,
    /// The segments of the path to the failing field.
    pub path: Vec<String>,
}

/// The mathematical value of a [`ValidationError`].
pub struct ValidationErrorView {
    pub code: Seq<char>,
    pub message: Option<Seq<char>>,
    pub location: Seq<char>,
    pub path: Seq<Seq<char>>,
}

/// The character sequence of an optional string.
pub open spec fn opt_string_view(s: Option<String>) -> Option<Seq<char>> {
    match s {
        Some(t) => Some(t@),
        None => None,
    }
}

impl View for ValidationError {
    type V = ValidationErrorView;

    open spec fn view(&self) -> ValidationErrorView {
        ValidationErrorView {
            code: self.code@,
            message: opt_string_view(self.message),
            location: self.location@,
            path: strings_view(self.path@),
        }
    }
}

/// The views of a list of errors.
pub open spec fn errors_view(v: Seq<ValidationError>) -> Seq<ValidationErrorView> {
    v.map_values(|e: ValidationError| e@)
}

/// What the `Display` of an error writes: the message and the location in
/// brackets, or, without a message, the code.
pub open spec fn error_text(e: ValidationErrorView) -> Seq<char> {
    match e.message {
        Some(m) => m + " ("@ + e.location + ")"@,
        None => "Validation error: "@ + e.code,
    }
}

fn copy_opt_string(s: &Option<String>) -> (r: Option<String>)
    ensures
        opt_string_view(r) == opt_string_view(*s),
{
    match s {
        Some(t) => Some(t.clone()),
        None => None,
    }
}

impl ValidationError {
    /// An error that carries only a message: empty code and location, no
    /// path.
    pub fn simple(message: String) -> (r: Self)
        ensures
            r@.code == Seq::<char>::empty(),
            r@.message == Some(message@),
            r@.location == Seq::<char>::empty(),
            r@.path == Seq::<Seq<char>>::empty(),
    {
        let r = ValidationError {
            code: String::new(),
            message: Some(message),
            location: String::new(),
            path: Vec::new(),
        };
        assert(strings_view(r.path@) =~= Seq::<Seq<char>>::empty());
        r
    }

    /// A copy of this error.
    pub fn duplicate(&self) -> (r: Self)
        ensures
            r@ == self@,
    {
        ValidationError {
            code: self.code.clone(),
            message: copy_opt_string(&self.message),
            location: self.location.clone(),
            path: copy_strings(&self.path),
        }
    }

    /// The text the error is displayed as: `"{message} ({location})"`, or
    /// `"Validation error: {code}"` when it has no message.
    pub fn to_string(&self) -> (r: String)
        ensures
            r@ == error_text(self@),
    {
        match &self.message {
            Some(msg) => {
                let mut r = msg.clone();
                r.append(" (");
                r.append(self.location.as_str());
                r.append(")");
                r
            },
            None => {
                let mut r = String::from_str("Validation error: ");
                r.append(self.code.as_str());
                r
            },
        }
    }
}

/// The errors of a form, one entry per failed check, each with its
/// location.
#[derive(Debug, Clone, Default)]
pub struct FieldErrors {
    pub errors: Vec<ValidationError>,
}

impl View for FieldErrors {
    type V = Seq<ValidationErrorView>;

    open spec fn view(&self) -> Seq<ValidationErrorView> {
        errors_view(self.errors@)
    }
}

/// The errors of `errs` whose location starts with `prefix`, in their order.
pub open spec fn errors_at(errs: Seq<ValidationErrorView>, prefix: Seq<char>) -> Seq<
    ValidationErrorView,
>
    decreases errs.len(),
{
    if errs.len() == 0 {
        Seq::empty()
    } else {
        let rest = errors_at(errs.drop_last(), prefix);
        if has_prefix(errs.last().location, prefix) {
            rest.push(errs.last())
        } else {
            rest
        }
    }
}

/// A copy of a list of errors.
pub fn copy_errors(v: &Vec<ValidationError>) -> (r: Vec<ValidationError>)
    ensures
        errors_view(r@) == errors_view(v@),
{
    let mut r: Vec<ValidationError> = Vec::new();
    let mut i: usize = 0;
    while i < v.len()
        invariant
            i <= v.len(),
            r@.len() == i,
            forall|j: int| 0 <= j < i ==> r@[j]@ == v@[j]@,
        decreases v.len() - i,
    {
        r.push(v[i].duplicate());
        i = i + 1;
    }
    assert(errors_view(r@) =~= errors_view(v@));
    r
}

impl FieldErrors {
    /// The errors whose location starts with `field_name`, in their order,
    /// or `None` when there is none.
    pub fn field(&self, field_name: &str) -> (r: Option<Vec<ValidationError>>)
        ensures
            r is None <==> errors_at(self@, field_name@).len() == 0,
            r matches Some(v) ==> errors_view(v@) == errors_at(self@, field_name@),
    {
        let mut errs: Vec<ValidationError> = Vec::new();
        let mut i: usize = 0;
        while i < self.errors.len()
            invariant
                i <= self.errors.len(),
                errors_view(errs@) == errors_at(errors_view(self.errors@.take(i as int)), field_name@),
            decreases self.errors.len() - i,
        {
            let ghost before = errs@;
            let e = &self.errors[i];
            assert(errors_view(self.errors@.take(i + 1)).drop_last() =~= errors_view(
                self.errors@.take(i as int),
            ));
            if starts_with(e.location.as_str(), field_name) {
                errs.push(e.duplicate());
                assert(errors_view(errs@) =~= errors_view(before).push(e@));
            }
            i = i + 1;
        }
        assert(self.errors@.take(self.errors.len() as int) =~= self.errors@);
        if errs.len() == 0 {
            None
        } else {
            Some(errs)
        }
    }
}


/// The errors of one entry of a [`ValidationErrors`]: those of a nested
/// structure, of each element of a list of structures, or of a field.
#[derive(Debug, PartialEq)]
pub enum ValidationErrorsKind {
    Struct(Box<ValidationErrors>),
    List(Vec<ValidationErrors>),
    Field(Vec<ValidationError>),
}

/// The errors of a structure, keyed by field name, in insertion order.
/// No key occurs twice.
#[derive(Debug, PartialEq)]
pub struct ValidationErrors(Vec<(String, ValidationErrorsKind)>);

/// The keys of a list of entries.
pub open spec fn entry_keys(entries: Seq<(String, ValidationErrorsKind)>) -> Seq<Seq<char>> {
    entries.map_values(|e: (String, ValidationErrorsKind)| e.0@)
}

impl ValidationErrors {
    /// The entries, in insertion order.
    pub closed spec fn entries(&self) -> Seq<(String, ValidationErrorsKind)> {
        self.0@
    }

    /// No key occurs twice.
    #[verifier::type_invariant]
    closed spec fn keys_distinct(&self) -> bool {
        entry_keys(self.0@).no_duplicates()
    }

    /// No errors.
    pub fn new() -> (r: Self)
        ensures
            r.entries().len() == 0,
    {
        let r = ValidationErrors(Vec::new());
        assert(entry_keys(r.0@) =~= Seq::<Seq<char>>::empty());
        r
    }

    /// Sets the errors of `key` to `kind`. An existing key keeps its place
    /// and its former errors are returned; a new key is added last.
    pub fn insert(&mut self, key: String, kind: ValidationErrorsKind) -> (r: Option<
        ValidationErrorsKind,
    >)
        ensures
            forall|i: int|
                0 <= i < old(self).entries().len() && #[trigger] old(self).entries()[i].0@
                    == key@ ==> {
                    &&& final(self).entries() == old(self).entries().update(
                        i,
                        (old(self).entries()[i].0, kind),
                    )
                    &&& r == Some(old(self).entries()[i].1)
                },
            !entry_keys(old(self).entries()).contains(key@) ==> {
                &&& final(self).entries() == old(self).entries().push((key, kind))
                &&& r is None
            },
    {
        proof {
            use_type_invariant(&*self);
        }
        let mut v: Vec<(String, ValidationErrorsKind)> = Vec::new();
        std::mem::swap(&mut v, &mut self.0);
        let ghost old_entries = v@;
        let mut i: usize = 0;
        while i < v.len()
            invariant
                v@ == old_entries,
                old_entries == old(self).entries(),
                entry_keys(old_entries).no_duplicates(),
                i <= v.len(),
                forall|j: int| 0 <= j < i ==> v@[j].0@ != key@,
            decreases v.len() - i,
        {
            if v[i].0 == key {
                let (k, previous) = v.remove(i);
                v.insert(i, (k, kind));
                proof {
                    assert(entry_keys(old_entries)[i as int] == key@);
                    assert(v@ =~= old_entries.update(i as int, (old_entries[i as int].0, kind)));
                    assert(entry_keys(v@) =~= entry_keys(old_entries));
                    assert forall|j: int|
                        0 <= j < old_entries.len() && #[trigger] old_entries[j].0@
                            == key@ implies j == i by {
                        if j != i {
                            assert(entry_keys(old_entries)[j] == entry_keys(old_entries)[i as int]);
                        }
                    }
                }
                self.0 = v;
                return Some(previous);
            }
            i = i + 1;
        }
        proof {
            assert forall|j: int| 0 <= j < entry_keys(old_entries).len() implies entry_keys(
                old_entries,
            )[j] != key@ by {}
            assert(!entry_keys(old_entries).contains(key@));
        }
        v.push((key, kind));
        proof {
            assert(entry_keys(v@) =~= entry_keys(old_entries).push(key@));
        }
        self.0 = v;
        None
    }

    /// The entries, in insertion order, taken out of the structure.
    pub fn into_entries(self) -> (r: Vec<(String, ValidationErrorsKind)>)
        ensures
            r@ == self.entries(),
            entry_keys(r@).no_duplicates(),
    {
        proof {
            use_type_invariant(&self);
        }
        self.0
    }

    /// The entries, in insertion order.
    pub fn errors(&self) -> (r: &Vec<(String, ValidationErrorsKind)>)
        ensures
            r@ == self.entries(),
            entry_keys(r@).no_duplicates(),
    {
        proof {
            use_type_invariant(self);
        }
        &self.0
    }
}

/// The error `e` moved to the field that `path` leads to.
pub open spec fn relocated(e: ValidationErrorView, path: Seq<Seq<char>>) -> ValidationErrorView {
    ValidationErrorView { code: e.code, message: e.message, location: location_of(path), path }
}

/// The flat list of errors of a kind whose field lies at `path`.
pub open spec fn flatten_kind(kind: ValidationErrorsKind, path: Seq<Seq<char>>) -> Seq<
    ValidationErrorView,
>
    decreases kind,
{
    match kind {
        ValidationErrorsKind::Field(errs) => errs@.map_values(
            |e: ValidationError| relocated(e@, path),
        ),
        ValidationErrorsKind::Struct(inner) => flatten_entries(inner.entries(), path),
        ValidationErrorsKind::List(items) => flatten_list(items@, path),
    }
}

/// The flat list of errors of the entries of a structure at `path`: each
/// entry's errors lie under its key.
pub open spec fn flatten_entries(
    entries: Seq<(String, ValidationErrorsKind)>,
    path: Seq<Seq<char>>,
) -> Seq<ValidationErrorView>
    decreases entries,
{
    if entries.len() == 0 {
        Seq::empty()
    } else {
        let n = entries.len() - 1;
        flatten_entries(entries.subrange(0, n), path) + flatten_kind(
            entries[n].1,
            path.push(entries[n].0@),
        )
    }
}

/// The flat list of errors of a list of structures at `path`: the errors of
/// the element at index `i` lie under the segment `i`.
pub open spec fn flatten_list(items: Seq<ValidationErrors>, path: Seq<Seq<char>>) -> Seq<
    ValidationErrorView,
>
    decreases items,
{
    if items.len() == 0 {
        Seq::empty()
    } else {
        let n = items.len() - 1;
        flatten_list(items.subrange(0, n), path) + flatten_entries(
            items[n].entries(),
            path.push(decimal(n as nat)),
        )
    }
}


/// Appends the errors of `kind`, whose field lies at `path`, each moved to
/// that field.
fn parse_inner(
    field_errors: &mut Vec<ValidationError>,
    kind: &ValidationErrorsKind,
    path: Vec<String>,
)
    ensures
        errors_view(final(field_errors)@) == errors_view(old(field_errors)@) + flatten_kind(
            *kind,
            strings_view(path@),
        ),
    decreases *kind, 0nat,
{
    let ghost path_view = strings_view(path@);
    match kind {
        ValidationErrorsKind::Field(errs) => {
            let location = location_from_path(&path);
            let ghost start = errors_view(field_errors@);
            let ghost target = errs@.map_values(|e: ValidationError| relocated(e@, path_view));
            let mut i: usize = 0;
            while i < errs.len()
                invariant
                    i <= errs.len(),
                    path_view == strings_view(path@),
                    location@ == location_of(path_view),
                    target == errs@.map_values(|e: ValidationError| relocated(e@, path_view)),
                    errors_view(field_errors@) == start + target.take(i as int),
                decreases errs.len() - i,
            {
                let e = &errs[i];
                let moved = ValidationError {
                    code: e.code.clone(),
                    message: copy_opt_string(&e.message),
                    location: location.clone(),
                    path: copy_strings(&path),
                };
                let ghost before = field_errors@;
                field_errors.push(moved);
                proof {
                    assert(errors_view(field_errors@) =~= errors_view(before).push(moved@));
                    assert(target.take(i + 1) =~= target.take(i as int).push(target[i as int]));
                }
                i = i + 1;
            }
            proof {
                assert(target.take(errs.len() as int) =~= target);
            }
        },
        ValidationErrorsKind::Struct(inner) => {
            parse_struct(field_errors, inner, path);
        },
        ValidationErrorsKind::List(items) => {
            let ghost start = errors_view(field_errors@);
            let mut idx: usize = 0;
            while idx < items.len()
                invariant
                    idx <= items.len(),
                    *kind == ValidationErrorsKind::List(*items),
                    path_view == strings_view(path@),
                    errors_view(field_errors@) == start + flatten_list(
                        items@.take(idx as int),
                        path_view,
                    ),
                decreases items.len() - idx,
            {
                let mut item_path = copy_strings(&path);
                item_path.push(usize_to_decimal(idx));
                proof {
                    assert(strings_view(item_path@) =~= path_view.push(decimal(idx as nat)));
                    assert(items@.take(idx + 1).subrange(0, idx as int) =~= items@.take(
                        idx as int,
                    ));
                    assert(decreases_to!(*kind => kind->List_0));
                    assert(decreases_to!(kind->List_0 => kind->List_0@));
                }
                parse_struct(field_errors, &items[idx], item_path);
                idx = idx + 1;
            }
            proof {
                assert(items@.take(items.len() as int) =~= items@);
            }
        },
    }
}

/// Appends the errors of the entries of `errs`, a structure at `path`: the
/// errors of each entry lie under its key.
fn parse_struct(field_errors: &mut Vec<ValidationError>, errs: &ValidationErrors, path: Vec<String>)
    ensures
        errors_view(final(field_errors)@) == errors_view(old(field_errors)@) + flatten_entries(
            errs.0@,
            strings_view(path@),
        ),
    decreases *errs, 1nat,
{
    let ghost path_view = strings_view(path@);
    let ghost start = errors_view(field_errors@);
    let entries = &errs.0;
    let mut i: usize = 0;
    while i < entries.len()
        invariant
            i <= entries.len(),
            entries@ == errs.0@,
            path_view == strings_view(path@),
            errors_view(field_errors@) == start + flatten_entries(
                entries@.take(i as int),
                path_view,
            ),
        decreases entries.len() - i,
    {
        let mut entry_path = copy_strings(&path);
        entry_path.push(entries[i].0.clone());
        proof {
            assert(strings_view(entry_path@) =~= path_view.push(entries@[i as int].0@));
            assert(entries@.take(i + 1).subrange(0, i as int) =~= entries@.take(i as int));
        }
        parse_inner(field_errors, &entries[i].1, entry_path);
        i = i + 1;
    }
    proof {
        assert(entries@.take(entries.len() as int) =~= entries@);
    }
}

impl ValidationErrors {
    /// The flat list of the errors, each moved to the field it belongs to.
    pub open spec fn flattened(&self) -> Seq<ValidationErrorView> {
        flatten_entries(self.entries(), Seq::empty())
    }

    /// Flattens the errors into one list: the errors of a field at the end
    /// of the path `k1`, `k2`, ... (keys of nested structures, and indices
    /// in decimal for elements of lists) are listed with that path and the
    /// location `"/k1/k2/..."`, in the order of the entries.
    pub fn parse(&self) -> (r: FieldErrors)
        ensures
            r@ == self.flattened(),
    {
        let mut field_errors: Vec<ValidationError> = Vec::new();
        let path: Vec<String> = Vec::new();
        proof {
            assert(strings_view(path@) =~= Seq::<Seq<char>>::empty());
            assert(errors_view(field_errors@) =~= Seq::<ValidationErrorView>::empty());
        }
        parse_struct(&mut field_errors, self, path);
        FieldErrors { errors: field_errors }
    }
}


/// `e` lies at the location its path names, and its path starts with
/// `path`.
pub open spec fn placed(e: ValidationErrorView, path: Seq<Seq<char>>) -> bool {
    &&& e.location == location_of(e.path)
    &&& path.len() <= e.path.len()
    &&& e.path.subrange(0, path.len() as int) == path
}

/// Every error of `errs` is [`placed`] under `path`.
pub open spec fn placed_under(errs: Seq<ValidationErrorView>, path: Seq<Seq<char>>) -> bool {
    forall|i: int| 0 <= i < errs.len() ==> placed(#[trigger] errs[i], path)
}

proof fn lemma_placed_concat(
    a: Seq<ValidationErrorView>,
    b: Seq<ValidationErrorView>,
    path: Seq<Seq<char>>,
)
    requires
        placed_under(a, path),
        placed_under(b, path),
    ensures
        placed_under(a + b, path),
{
    assert forall|i: int| 0 <= i < (a + b).len() implies placed(#[trigger] (a + b)[i], path) by {
        if i < a.len() {
            assert((a + b)[i] == a[i]);
        } else {
            assert((a + b)[i] == b[i - a.len()]);
        }
    }
}

proof fn lemma_placed_longer(errs: Seq<ValidationErrorView>, path: Seq<Seq<char>>, seg: Seq<char>)
    requires
        placed_under(errs, path.push(seg)),
    ensures
        placed_under(errs, path),
{
    assert forall|i: int| 0 <= i < errs.len() implies placed(#[trigger] errs[i], path) by {
        let e = errs[i];
        assert(placed(e, path.push(seg)));
        let n = path.len() as int;
        assert forall|j: int| 0 <= j < n implies e.path.subrange(0, n)[j] == path[j] by {
            assert(e.path.subrange(0, n + 1)[j] == path.push(seg)[j]);
        }
        assert(e.path.subrange(0, n) =~= path);
    }
}

proof fn lemma_placed_kind(kind: ValidationErrorsKind, path: Seq<Seq<char>>)
    ensures
        placed_under(flatten_kind(kind, path), path),
    decreases kind,
{
    match kind {
        ValidationErrorsKind::Field(errs) => {
            let r = flatten_kind(kind, path);
            assert forall|i: int| 0 <= i < r.len() implies placed(#[trigger] r[i], path) by {
                assert(r[i].path == path);
                assert(path.subrange(0, path.len() as int) =~= path);
            }
        },
        ValidationErrorsKind::Struct(inner) => {
            lemma_placed_entries(inner.0@, path);
        },
        ValidationErrorsKind::List(items) => {
            assert(decreases_to!(kind => kind->List_0));
            lemma_placed_list(items@, path);
        },
    }
}

proof fn lemma_placed_entries(entries: Seq<(String, ValidationErrorsKind)>, path: Seq<Seq<char>>)
    ensures
        placed_under(flatten_entries(entries, path), path),
    decreases entries,
{
    if entries.len() > 0 {
        let n = entries.len() - 1;
        lemma_placed_entries(entries.subrange(0, n), path);
        lemma_placed_kind(entries[n].1, path.push(entries[n].0@));
        lemma_placed_longer(
            flatten_kind(entries[n].1, path.push(entries[n].0@)),
            path,
            entries[n].0@,
        );
        lemma_placed_concat(
            flatten_entries(entries.subrange(0, n), path),
            flatten_kind(entries[n].1, path.push(entries[n].0@)),
            path,
        );
    }
}

proof fn lemma_placed_list(items: Seq<ValidationErrors>, path: Seq<Seq<char>>)
    ensures
        placed_under(flatten_list(items, path), path),
    decreases items,
{
    if items.len() > 0 {
        let n = items.len() - 1;
        lemma_placed_list(items.subrange(0, n), path);
        lemma_placed_entries(items[n].0@, path.push(decimal(n as nat)));
        lemma_placed_longer(
            flatten_entries(items[n].0@, path.push(decimal(n as nat))),
            path,
            decimal(n as nat),
        );
        lemma_placed_concat(
            flatten_list(items.subrange(0, n), path),
            flatten_entries(items[n].0@, path.push(decimal(n as nat))),
            path,
        );
    }
}

/// Every error that `parse` lists lies at the location its path names
/// (`"/"` and the segments of its path joined with `"/"`), and the first
/// segment of its path is the key of an entry of the structure.
pub proof fn lemma_parse_locations(errs: ValidationErrors)
    ensures
        forall|i: int|
            0 <= i < errs.flattened().len() ==> {
                &&& #[trigger] errs.flattened()[i].location == location_of(
                    errs.flattened()[i].path,
                )
                &&& errs.flattened()[i].path.len() >= 1
                &&& entry_keys(errs.entries()).contains(errs.flattened()[i].path[0])
            },
{
    let r = errs.flattened();
    lemma_top_keys(errs.0@);
    lemma_placed_entries(errs.0@, Seq::empty());
    assert forall|i: int| 0 <= i < r.len() implies {
        &&& #[trigger] r[i].location == location_of(r[i].path)
        &&& r[i].path.len() >= 1
        &&& entry_keys(errs.entries()).contains(r[i].path[0])
    } by {
        assert(placed(r[i], Seq::empty()));
        assert(entry_keys(errs.0@).contains(r[i].path[0]));
    }
}

/// The errors of the entries at the top level lie under paths whose first
/// segment is an entry's key.
proof fn lemma_top_keys(entries: Seq<(String, ValidationErrorsKind)>)
    ensures
        forall|i: int|
            0 <= i < flatten_entries(entries, Seq::empty()).len() ==> {
                &&& (#[trigger] flatten_entries(entries, Seq::empty())[i]).path.len() >= 1
                &&& entry_keys(entries).contains(flatten_entries(entries, Seq::empty())[i].path[0])
            },
    decreases entries.len(),
{
    if entries.len() > 0 {
        let n = entries.len() - 1;
        let front = entries.subrange(0, n);
        let key = entries[n].0@;
        let top: Seq<Seq<char>> = Seq::empty();
        lemma_top_keys(front);
        lemma_placed_kind(entries[n].1, top.push(key));
        let a = flatten_entries(front, top);
        let b = flatten_kind(entries[n].1, top.push(key));
        assert(flatten_entries(entries, top) == a + b);
        assert forall|i: int| 0 <= i < (a + b).len() implies {
            &&& (#[trigger] (a + b)[i]).path.len() >= 1
            &&& entry_keys(entries).contains((a + b)[i].path[0])
        } by {
            if i < a.len() {
                assert((a + b)[i] == a[i]);
                let j = choose|j: int| 0 <= j < entry_keys(front).len() && entry_keys(front)[j]
                    == a[i].path[0];
                assert(entry_keys(entries)[j] == entry_keys(front)[j]);
            } else {
                let e = b[i - a.len()];
                assert((a + b)[i] == e);
                assert(placed(e, top.push(key)));
                assert(e.path.subrange(0, 1)[0] == top.push(key)[0]);
                assert(entry_keys(entries)[n] == key);
            }
        }
    }
}


/// The code and message of an error.
pub open spec fn code_and_message(e: ValidationErrorView) -> (Seq<char>, Option<Seq<char>>) {
    (e.code, e.message)
}

/// The codes and messages of a list of errors.
pub open spec fn codes_and_messages(errs: Seq<ValidationErrorView>) -> Seq<
    (Seq<char>, Option<Seq<char>>),
> {
    errs.map_values(|e: ValidationErrorView| code_and_message(e))
}

/// The code and message of every error of every field of a kind, in order.
pub open spec fn leaves_kind(kind: ValidationErrorsKind) -> Seq<(Seq<char>, Option<Seq<char>>)>
    decreases kind,
{
    match kind {
        ValidationErrorsKind::Field(errs) => errs@.map_values(
            |e: ValidationError| (e.code@, opt_string_view(e.message)),
        ),
        ValidationErrorsKind::Struct(inner) => leaves_entries(inner.entries()),
        ValidationErrorsKind::List(items) => leaves_list(items@),
    }
}

pub open spec fn leaves_entries(entries: Seq<(String, ValidationErrorsKind)>) -> Seq<
    (Seq<char>, Option<Seq<char>>),
>
    decreases entries,
{
    if entries.len() == 0 {
        Seq::empty()
    } else {
        let n = entries.len() - 1;
        leaves_entries(entries.subrange(0, n)) + leaves_kind(entries[n].1)
    }
}

pub open spec fn leaves_list(items: Seq<ValidationErrors>) -> Seq<(Seq<char>, Option<Seq<char>>)>
    decreases items,
{
    if items.len() == 0 {
        Seq::empty()
    } else {
        let n = items.len() - 1;
        leaves_list(items.subrange(0, n)) + leaves_entries(items[n].entries())
    }
}

impl ValidationErrors {
    /// The code and message of every error of every field, nested ones
    /// included, in the order of the entries.
    pub open spec fn leaf_errors(&self) -> Seq<(Seq<char>, Option<Seq<char>>)> {
        leaves_entries(self.entries())
    }
}

proof fn lemma_codes_concat(a: Seq<ValidationErrorView>, b: Seq<ValidationErrorView>)
    ensures
        codes_and_messages(a + b) == codes_and_messages(a) + codes_and_messages(b),
{
    assert(codes_and_messages(a + b) =~= codes_and_messages(a) + codes_and_messages(b));
}

proof fn lemma_leaves_kind(kind: ValidationErrorsKind, path: Seq<Seq<char>>)
    ensures
        codes_and_messages(flatten_kind(kind, path)) == leaves_kind(kind),
    decreases kind,
{
    match kind {
        ValidationErrorsKind::Field(errs) => {
            assert(codes_and_messages(flatten_kind(kind, path)) =~= leaves_kind(kind));
        },
        ValidationErrorsKind::Struct(inner) => {
            lemma_leaves_entries(inner.0@, path);
        },
        ValidationErrorsKind::List(items) => {
            assert(decreases_to!(kind => kind->List_0));
            lemma_leaves_list(items@, path);
        },
    }
}

proof fn lemma_leaves_entries(entries: Seq<(String, ValidationErrorsKind)>, path: Seq<Seq<char>>)
    ensures
        codes_and_messages(flatten_entries(entries, path)) == leaves_entries(entries),
    decreases entries,
{
    if entries.len() > 0 {
        let n = entries.len() - 1;
        lemma_leaves_entries(entries.subrange(0, n), path);
        lemma_leaves_kind(entries[n].1, path.push(entries[n].0@));
        lemma_codes_concat(
            flatten_entries(entries.subrange(0, n), path),
            flatten_kind(entries[n].1, path.push(entries[n].0@)),
        );
    }
}

proof fn lemma_leaves_list(items: Seq<ValidationErrors>, path: Seq<Seq<char>>)
    ensures
        codes_and_messages(flatten_list(items, path)) == leaves_list(items),
    decreases items,
{
    if items.len() > 0 {
        let n = items.len() - 1;
        lemma_leaves_list(items.subrange(0, n), path);
        lemma_leaves_entries(items[n].0@, path.push(decimal(n as nat)));
        lemma_codes_concat(
            flatten_list(items.subrange(0, n), path),
            flatten_entries(items[n].0@, path.push(decimal(n as nat))),
        );
    }
}

/// `parse` only moves errors: it lists the code and message of every error
/// of every field, nested ones included, each once and in the order of the
/// entries.
pub proof fn lemma_parse_keeps_errors(errs: ValidationErrors)
    ensures
        codes_and_messages(errs.flattened()) == errs.leaf_errors(),
{
    lemma_leaves_entries(errs.0@, Seq::empty());
}


/// The errors of a field entry.
pub open spec fn field_errors_of(kind: ValidationErrorsKind) -> Option<Seq<ValidationErrorView>> {
    match kind {
        ValidationErrorsKind::Field(errs) => Some(errors_view(errs@)),
        _ => None,
    }
}

/// The entries are exactly the field entries `expected`, in order.
pub open spec fn entries_are_fields(
    entries: Seq<(String, ValidationErrorsKind)>,
    expected: Seq<(Seq<char>, Seq<ValidationErrorView>)>,
) -> bool {
    &&& entries.len() == expected.len()
    &&& forall|i: int|
        0 <= i < expected.len() ==> {
            &&& (#[trigger] entries[i]).0@ == expected[i].0
            &&& field_errors_of(entries[i].1) == Some(expected[i].1)
        }
}

/// The entries of `errs` are exactly the field entries `expected`, in order.
pub open spec fn has_field_entries(
    errs: ValidationErrors,
    expected: Seq<(Seq<char>, Seq<ValidationErrorView>)>,
) -> bool {
    entries_are_fields(errs.entries(), expected)
}

/// Each error moved to the field at `path`.
pub open spec fn relocate_all(errs: Seq<ValidationErrorView>, path: Seq<Seq<char>>) -> Seq<
    ValidationErrorView,
> {
    errs.map_values(|e: ValidationErrorView| relocated(e, path))
}

/// The errors of top-level fields, each moved to its field, in order.
pub open spec fn flat_field_errors(fields: Seq<(Seq<char>, Seq<ValidationErrorView>)>) -> Seq<
    ValidationErrorView,
>
    decreases fields.len(),
{
    if fields.len() == 0 {
        Seq::empty()
    } else {
        flat_field_errors(fields.drop_last()) + relocate_all(
            fields.last().1,
            seq![fields.last().0],
        )
    }
}

proof fn lemma_flatten_fields(
    entries: Seq<(String, ValidationErrorsKind)>,
    fields: Seq<(Seq<char>, Seq<ValidationErrorView>)>,
)
    requires
        entries_are_fields(entries, fields),
    ensures
        flatten_entries(entries, Seq::empty()) == flat_field_errors(fields),
    decreases entries.len(),
{
    if entries.len() > 0 {
        let n = entries.len() - 1;
        let front = entries.subrange(0, n);
        assert(entries_are_fields(front, fields.drop_last())) by {
            assert forall|i: int| 0 <= i < fields.drop_last().len() implies {
                &&& (#[trigger] front[i]).0@ == fields.drop_last()[i].0
                &&& field_errors_of(front[i].1) == Some(fields.drop_last()[i].1)
            } by {
                assert(front[i] == entries[i]);
            }
        }
        lemma_flatten_fields(front, fields.drop_last());
        let top: Seq<Seq<char>> = Seq::empty();
        assert(top.push(entries[n].0@) =~= seq![fields.last().0]);
        assert(entries[n].0@ == fields[n].0);
        match entries[n].1 {
            ValidationErrorsKind::Field(errs) => {
                assert(flatten_kind(entries[n].1, top.push(entries[n].0@)) =~= relocate_all(
                    fields.last().1,
                    seq![fields.last().0],
                ));
            },
            _ => {
                assert(field_errors_of(entries[n].1) == Some(fields[n].1));
            },
        }
    }
}

/// A structure whose entries are all fields flattens to the errors of each
/// field moved to the location `"/field"`, in the order of the entries.
pub proof fn lemma_parse_fields(
    errs: ValidationErrors,
    fields: Seq<(Seq<char>, Seq<ValidationErrorView>)>,
)
    requires
        has_field_entries(errs, fields),
    ensures
        errs.flattened() == flat_field_errors(fields),
{
    lemma_flatten_fields(errs.entries(), fields);
}


impl Default for ValidationErrors {
    fn default() -> (r: Self)
        ensures
            r.entries().len() == 0,
    {
        ValidationErrors::new()
    }
}

/// Every error that `errors_at` selects has a location starting with the
/// prefix.
proof fn lemma_errors_at_prefixed(errs: Seq<ValidationErrorView>, prefix: Seq<char>)
    ensures
        forall|i: int|
            0 <= i < errors_at(errs, prefix).len() ==> has_prefix(
                (#[trigger] errors_at(errs, prefix)[i]).location,
                prefix,
            ),
    decreases errs.len(),
{
    if errs.len() > 0 {
        lemma_errors_at_prefixed(errs.drop_last(), prefix);
    }
}

/// Selecting the errors of a field twice selects the same errors as once:
/// every error `field` returns lies under the prefix asked for.
pub proof fn lemma_field_idempotent(errs: Seq<ValidationErrorView>, prefix: Seq<char>)
    ensures
        errors_at(errors_at(errs, prefix), prefix) == errors_at(errs, prefix),
    decreases errs.len(),
{
    if errs.len() > 0 {
        lemma_field_idempotent(errs.drop_last(), prefix);
        let rest = errors_at(errs.drop_last(), prefix);
        lemma_errors_at_prefixed(errs.drop_last(), prefix);
        if has_prefix(errs.last().location, prefix) {
            let sel = rest.push(errs.last());
            assert(sel.drop_last() =~= rest);
        }
    }
}


/// The error `e` put under `prefix`: `prefix` goes in front of its path, and
/// its location becomes that of the longer path.
pub open spec fn under(e: ValidationErrorView, prefix: Seq<Seq<char>>) -> ValidationErrorView {
    ValidationErrorView {
        code: e.code,
        message: e.message,
        location: location_of(prefix + e.path),
        path: prefix + e.path,
    }
}

/// Every error of `errs` put under `prefix`, in order.
pub open spec fn nested_under(errs: Seq<ValidationErrorView>, prefix: Seq<Seq<char>>) -> Seq<
    ValidationErrorView,
> {
    errs.map_values(|e: ValidationErrorView| under(e, prefix))
}

/// The errors of the elements of a list held under the key `key`: those of
/// the element at index `i` put under `key` and `i` in decimal, in order.
pub open spec fn elements_under(items: Seq<ValidationErrors>, key: Seq<char>) -> Seq<
    ValidationErrorView,
>
    decreases items.len(),
{
    if items.len() == 0 {
        Seq::empty()
    } else {
        let n = items.len() - 1;
        elements_under(items.drop_last(), key) + nested_under(
            items[n].flattened(),
            seq![key, decimal(n as nat)],
        )
    }
}

proof fn lemma_nested_concat(
    a: Seq<ValidationErrorView>,
    b: Seq<ValidationErrorView>,
    p: Seq<Seq<char>>,
)
    ensures
        nested_under(a + b, p) == nested_under(a, p) + nested_under(b, p),
{
    assert(nested_under(a + b, p) =~= nested_under(a, p) + nested_under(b, p));
}

proof fn lemma_nested_compose(x: Seq<ValidationErrorView>, a: Seq<Seq<char>>, b: Seq<Seq<char>>)
    ensures
        nested_under(nested_under(x, a), b) == nested_under(x, b + a),
{
    assert forall|i: int| 0 <= i < x.len() implies nested_under(nested_under(x, a), b)[i]
        == nested_under(x, b + a)[i] by {
        assert(b + (a + x[i].path) =~= (b + a) + x[i].path);
    }
    assert(nested_under(nested_under(x, a), b) =~= nested_under(x, b + a));
}

proof fn lemma_shift_kind(kind: ValidationErrorsKind, p: Seq<Seq<char>>)
    ensures
        flatten_kind(kind, p) == nested_under(flatten_kind(kind, Seq::empty()), p),
    decreases kind,
{
    let top: Seq<Seq<char>> = Seq::empty();
    match kind {
        ValidationErrorsKind::Field(errs) => {
            assert(p + top =~= p);
            assert(flatten_kind(kind, p) =~= nested_under(flatten_kind(kind, top), p));
        },
        ValidationErrorsKind::Struct(inner) => {
            lemma_shift_entries(inner.entries(), p);
        },
        ValidationErrorsKind::List(items) => {
            assert(decreases_to!(kind => kind->List_0));
            lemma_shift_list(items@, p);
        },
    }
}

proof fn lemma_shift_entries(entries: Seq<(String, ValidationErrorsKind)>, p: Seq<Seq<char>>)
    ensures
        flatten_entries(entries, p) == nested_under(flatten_entries(entries, Seq::empty()), p),
    decreases entries,
{
    let top: Seq<Seq<char>> = Seq::empty();
    if entries.len() == 0 {
        assert(nested_under(Seq::empty(), p) =~= Seq::<ValidationErrorView>::empty());
    } else {
        let n = entries.len() - 1;
        let front = entries.subrange(0, n);
        let k = entries[n].0@;
        let kind = entries[n].1;
        lemma_shift_entries(front, p);
        lemma_shift_kind(kind, p.push(k));
        lemma_shift_kind(kind, top.push(k));
        let f = flatten_kind(kind, top);
        lemma_nested_compose(f, top.push(k), p);
        assert(p + top.push(k) =~= p.push(k));
        lemma_nested_concat(flatten_entries(front, top), flatten_kind(kind, top.push(k)), p);
    }
}

proof fn lemma_shift_list(items: Seq<ValidationErrors>, p: Seq<Seq<char>>)
    ensures
        flatten_list(items, p) == nested_under(flatten_list(items, Seq::empty()), p),
    decreases items,
{
    let top: Seq<Seq<char>> = Seq::empty();
    if items.len() == 0 {
        assert(nested_under(Seq::empty(), p) =~= Seq::<ValidationErrorView>::empty());
    } else {
        let n = items.len() - 1;
        let front = items.subrange(0, n);
        let d = decimal(n as nat);
        let es = items[n].entries();
        lemma_shift_list(front, p);
        lemma_shift_entries(es, p.push(d));
        lemma_shift_entries(es, top.push(d));
        lemma_nested_compose(flatten_entries(es, top), top.push(d), p);
        assert(p + top.push(d) =~= p.push(d));
        lemma_nested_concat(flatten_list(front, top), flatten_entries(es, top.push(d)), p);
    }
}

proof fn lemma_entries_concat(
    a: Seq<(String, ValidationErrorsKind)>,
    b: Seq<(String, ValidationErrorsKind)>,
    p: Seq<Seq<char>>,
)
    ensures
        flatten_entries(a + b, p) == flatten_entries(a, p) + flatten_entries(b, p),
    decreases b.len(),
{
    if b.len() == 0 {
        assert(a + b =~= a);
        assert(flatten_entries(a, p) + flatten_entries(b, p) =~= flatten_entries(a, p));
    } else {
        let n = b.len() - 1;
        lemma_entries_concat(a, b.subrange(0, n), p);
        let ab = a + b;
        assert(ab.subrange(0, ab.len() - 1) =~= a + b.subrange(0, n));
        assert(ab[ab.len() - 1] == b[n]);
        assert((flatten_entries(a, p) + flatten_entries(b.subrange(0, n), p)) + flatten_kind(
            b[n].1,
            p.push(b[n].0@),
        ) =~= flatten_entries(a, p) + (flatten_entries(b.subrange(0, n), p) + flatten_kind(
            b[n].1,
            p.push(b[n].0@),
        )));
    }
}

/// `parse` of a structure whose entries are those of `first` followed by
/// those of `second` lists the errors of `first`, then those of `second`,
/// each as its own structure would list them.
pub proof fn lemma_parse_concat(
    whole: ValidationErrors,
    first: ValidationErrors,
    second: ValidationErrors,
)
    requires
        whole.entries() == first.entries() + second.entries(),
    ensures
        whole.flattened() == first.flattened() + second.flattened(),
{
    lemma_entries_concat(first.entries(), second.entries(), Seq::empty());
}

/// Nesting: `parse` of a structure whose one entry `key` holds the structure
/// `inner` lists the errors `inner` lists, each put under `key` (its path is
/// `key` followed by its path in `inner`, and its location is that of the
/// longer path).
pub proof fn lemma_parse_nested(outer: ValidationErrors, key: Seq<char>, inner: ValidationErrors)
    requires
        outer.entries().len() == 1,
        outer.entries()[0].0@ == key,
        outer.entries()[0].1 matches ValidationErrorsKind::Struct(b) && *b == inner,
    ensures
        outer.flattened() == nested_under(inner.flattened(), seq![key]),
{
    let top: Seq<Seq<char>> = Seq::empty();
    let es = outer.entries();
    assert(es.subrange(0, 0) =~= Seq::<(String, ValidationErrorsKind)>::empty());
    assert(top.push(key) =~= seq![key]);
    lemma_shift_entries(inner.entries(), seq![key]);
    assert(flatten_entries(es.subrange(0, 0), top) =~= Seq::<ValidationErrorView>::empty());
    assert(outer.flattened() == flatten_entries(es, top));
    assert(flatten_entries(es, top) == flatten_entries(es.subrange(0, 0), top) + flatten_kind(
        es[0].1,
        top.push(es[0].0@),
    ));
    assert(outer.flattened() =~= flatten_kind(es[0].1, seq![key]));
}

proof fn lemma_list_under(items: Seq<ValidationErrors>, key: Seq<char>)
    ensures
        flatten_list(items, seq![key]) == elements_under(items, key),
    decreases items.len(),
{
    if items.len() > 0 {
        let n = items.len() - 1;
        let d = decimal(n as nat);
        lemma_list_under(items.drop_last(), key);
        assert(items.subrange(0, n) =~= items.drop_last());
        lemma_shift_entries(items[n].entries(), seq![key].push(d));
        assert(seq![key].push(d) =~= seq![key, d]);
    }
}

/// Lists: `parse` of a structure whose one entry `key` holds a list of
/// structures lists, for each element in order, the errors that element
/// lists, each put under `key` and the element's index in decimal.
pub proof fn lemma_parse_list(outer: ValidationErrors, key: Seq<char>, items: Seq<ValidationErrors>)
    requires
        outer.entries().len() == 1,
        outer.entries()[0].0@ == key,
        outer.entries()[0].1 matches ValidationErrorsKind::List(v) && v@ == items,
    ensures
        outer.flattened() == elements_under(items, key),
{
    let top: Seq<Seq<char>> = Seq::empty();
    let es = outer.entries();
    assert(es.subrange(0, 0) =~= Seq::<(String, ValidationErrorsKind)>::empty());
    assert(top.push(key) =~= seq![key]);
    lemma_list_under(items, key);
    assert(flatten_entries(es.subrange(0, 0), top) =~= Seq::<ValidationErrorView>::empty());
    assert(outer.flattened() == flatten_entries(es, top));
    assert(flatten_entries(es, top) == flatten_entries(es.subrange(0, 0), top) + flatten_kind(
        es[0].1,
        top.push(es[0].0@),
    ));
    assert(outer.flattened() =~= flatten_kind(es[0].1, seq![key]));
}

} // verus!
