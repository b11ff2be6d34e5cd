//! The `Scalar` archetype: a double-precision scalar with an optional label.
//!
//! An archetype is logged as a list of component batches, each a component
//! name with an arrow column, and read back from such a list.

use vstd::prelude::*;

use crate::name_set::names;
use crate::components::{self, instance_key_name, scalar_indicator_name, scalar_name, text_name};

verus! {

/// The data type of an arrow column.
#[derive(Debug, Clone, Copy, PartialEq, Eq)]
pub enum ColumnType {
    Null,
    Float64,
    Utf8,
}

/// A decoded arrow column: one optional value per instance. A `Float64` value
/// is held as the bit pattern of its `f64`.
#[derive(Debug, Clone, PartialEq, Eq)]
pub enum ComponentColumn {
    Null(usize),
    Float64(Vec<Option<u64>>),
    Utf8(Vec<Option<String>>),
}

impl ComponentColumn {
    /// The data type of this column.
    pub open spec fn spec_column_type(&self) -> ColumnType {
        match self {
            ComponentColumn::Null(_) => ColumnType::Null,
            ComponentColumn::Float64(_) => ColumnType::Float64,
            ComponentColumn::Utf8(_) => ColumnType::Utf8,
        }
    }

    /// The data type of this column.
    pub fn column_type(&self) -> (t: ColumnType)
        ensures
            t == self.spec_column_type(),
    {
        match self {
            ComponentColumn::Null(_) => ColumnType::Null,
            ComponentColumn::Float64(_) => ColumnType::Float64,
            ComponentColumn::Utf8(_) => ColumnType::Utf8,
        }
    }
}

/// A component batch: the name of a component and its data.
#[derive(Debug, Clone, PartialEq, Eq)]
pub struct ComponentBatch {
    pub name: String,
    pub column: ComponentColumn,
}

/// A field of the scalar archetype, named in the context of an error.
#[derive(Debug, Clone, Copy, PartialEq, Eq)]
pub enum ScalarField {
    Scalar,
    Text,
}

impl ScalarField {
    /// The path of the field, as it appears in an error's context.
    pub open spec fn spec_location(self) -> Seq<char> {
        match self {
            ScalarField::Scalar => "rerun.archetypes.Scalar#scalar"@,
            ScalarField::Text => "rerun.archetypes.Scalar#text"@,
        }
    }

    /// The path of the field, as it appears in an error's context.
    pub fn location(&self) -> (r: String)
        ensures
            r@ == self.spec_location(),
    {
        match self {
            ScalarField::Scalar => "rerun.archetypes.Scalar#scalar".to_owned(),
            ScalarField::Text => "rerun.archetypes.Scalar#text".to_owned(),
        }
    }
}

/// Why an archetype could not be read from its component batches.
#[derive(Debug, PartialEq, Eq)]
pub enum DeserializationError {
    /// Data that the archetype requires is absent.
    MissingData,
    /// A column does not have the data type that its component needs.
    DatatypeMismatch { expected: ColumnType, got: ColumnType },
    /// An error that arose while reading the given field.
    Context { location: ScalarField, source: Box<DeserializationError> },
}

/// `err`, in the context of reading `field`.
pub open spec fn in_context(field: ScalarField, err: DeserializationError) -> DeserializationError {
    DeserializationError::Context { location: field, source: Box::new(err) }
}

/// The column that the batches give for the component named `name`: that of
/// the last batch of that name, as a later entry replaces an earlier one.
pub open spec fn find_column(batches: Seq<ComponentBatch>, name: Seq<char>) -> Option<ComponentColumn>
    decreases batches.len(),
{
    if batches.len() == 0 {
        None
    } else if batches.last().name@ == name {
        Some(batches.last().column)
    } else {
        find_column(batches.drop_last(), name)
    }
}

/// The first scalar of a column, read as scalars: nothing where the column is
/// empty or its first entry is null, and a mismatch where it is not `Float64`.
pub open spec fn first_scalar(col: ComponentColumn) -> Result<Option<components::Scalar>, DeserializationError> {
    match col {
        ComponentColumn::Float64(v) => Ok(
            if v@.len() > 0 {
                match v@[0] {
                    Some(b) => Some(components::Scalar(b)),
                    None => None,
                }
            } else {
                None
            },
        ),
        _ => Err(DeserializationError::DatatypeMismatch { expected: ColumnType::Float64, got: col.spec_column_type() }),
    }
}

/// The first text of a column, read as texts: nothing where the column is
/// empty or its first entry is null, and a mismatch where it is not `Utf8`.
pub open spec fn first_text(col: ComponentColumn) -> Result<Option<components::Text>, DeserializationError> {
    match col {
        ComponentColumn::Utf8(v) => Ok(
            if v@.len() > 0 {
                match v@[0] {
                    Some(s) => Some(components::Text(s)),
                    None => None,
                }
            } else {
                None
            },
        ),
        _ => Err(DeserializationError::DatatypeMismatch { expected: ColumnType::Utf8, got: col.spec_column_type() }),
    }
}

/// What reading a scalar archetype from `batches` gives: the first value of
/// the scalar column, which must be there, and the first value of the text
/// column, if there is one; each error in the context of its field.
pub open spec fn spec_from_batches(batches: Seq<ComponentBatch>) -> Result<Scalar, DeserializationError> {
    match find_column(batches, scalar_name()) {
        None => Err(in_context(ScalarField::Scalar, DeserializationError::MissingData)),
        Some(col) => match first_scalar(col) {
            Err(e) => Err(in_context(ScalarField::Scalar, e)),
            Ok(None) => Err(in_context(ScalarField::Scalar, DeserializationError::MissingData)),
            Ok(Some(scalar)) => match find_column(batches, text_name()) {
                None => Ok(Scalar { scalar, text: None }),
                Some(tcol) => match first_text(tcol) {
                    Err(e) => Err(in_context(ScalarField::Text, e)),
                    Ok(text) => Ok(Scalar { scalar, text }),
                },
            },
        },
    }
}

/// The components a scalar archetype requires.
pub open spec fn spec_required_components() -> Seq<Seq<char>> {
    seq![scalar_name()]
}

/// The components a scalar archetype recommends.
pub open spec fn spec_recommended_components() -> Seq<Seq<char>> {
    seq![scalar_indicator_name()]
}

/// The components a scalar archetype may have.
pub open spec fn spec_optional_components() -> Seq<Seq<char>> {
    seq![instance_key_name(), text_name()]
}

/// All components of a scalar archetype.
pub open spec fn spec_all_components() -> Seq<Seq<char>> {
    seq![scalar_name(), scalar_indicator_name(), instance_key_name(), text_name()]
}

/// Whether `b` are the batches that `s` is logged as: its indicator as one
/// null, its scalar as a one-value `Float64` column, and its text, where it
/// has one, as a one-value `Utf8` column, in this order.
pub open spec fn batches_of(s: Scalar, b: Seq<ComponentBatch>) -> bool {
    &&& b.len() == if s.text is Some { 3int } else { 2int }
    &&& b[0].name@ == scalar_indicator_name()
    &&& b[0].column == ComponentColumn::Null(1)
    &&& b[1].name@ == scalar_name()
    &&& (b[1].column matches ComponentColumn::Float64(v) && v@ == seq![Some(s.scalar.0)])
    &&& s.text is Some ==> b[2].name@ == text_name() && (b[2].column matches ComponentColumn::Utf8(v)
        && v@ == seq![Some(s.text.unwrap().0)])
}

fn find_batch<'a>(batches: &'a Vec<ComponentBatch>, name: &String) -> (r: Option<&'a ComponentColumn>)
    ensures
        r == match find_column(batches@, name@) {
            Some(c) => Some(&c),
            None => None,
        },
{
    let mut i = batches.len();
    assert(batches@.subrange(0, i as int) =~= batches@);
    while i > 0
        invariant
            i <= batches@.len(),
            find_column(batches@, name@) == find_column(batches@.subrange(0, i as int), name@),
        decreases i,
    {
        let ghost prefix = batches@.subrange(0, i as int);
        assert(prefix.drop_last() =~= batches@.subrange(0, i - 1));
        if batches[i - 1].name == *name {
            return Some(&batches[i - 1].column);
        }
        i = i - 1;
    }
    assert(batches@.subrange(0, 0).len() == 0);
    None
}

fn read_first_scalar(col: &ComponentColumn) -> (r: Result<Option<components::Scalar>, DeserializationError>)
    ensures
        r == first_scalar(*col),
{
    match col {
        ComponentColumn::Float64(v) => {
            if v.len() > 0 {
                match v[0] {
                    Some(b) => Ok(Some(components::Scalar(b))),
                    None => Ok(None),
                }
            } else {
                Ok(None)
            }
        },
        _ => Err(DeserializationError::DatatypeMismatch { expected: ColumnType::Float64, got: col.column_type() }),
    }
}

fn read_first_text(col: &ComponentColumn) -> (r: Result<Option<components::Text>, DeserializationError>)
    ensures
        r == first_text(*col),
{
    match col {
        ComponentColumn::Utf8(v) => {
            if v.len() > 0 {
                match &v[0] {
                    Some(s) => Ok(Some(components::Text(s.clone()))),
                    None => Ok(None),
                }
            } else {
                Ok(None)
            }
        },
        _ => Err(DeserializationError::DatatypeMismatch { expected: ColumnType::Utf8, got: col.column_type() }),
    }
}

/// **Archetype**: Log a double-precision scalar.
///
/// The current timeline value is used for the time/X-axis, hence scalars
/// cannot be timeless.
#[derive(Debug, Clone, PartialEq, Eq)]
pub struct Scalar {
    /// The scalar value to log.
    pub scalar: components::Scalar,
    /// An optional label for the scalar.
    pub text: Option<components::Text>,
}

/// The size of a text on the heap: the number of bytes of its UTF-8 encoding
/// (a string in memory has no more bytes than a `usize` counts).
pub open spec fn text_heap_size(t: components::Text) -> u64 {
    vstd::utf8::encode_utf8(t.0@).len() as usize as u64
}

impl Scalar {
    /// The number of components of the archetype.
    pub const NUM_COMPONENTS: usize = 4usize;

    /// An archetype holding `scalar` and no label.
    pub fn new(scalar: components::Scalar) -> (r: Self)
        ensures
            r.scalar == scalar,
            r.text is None,
    {
        Scalar { scalar, text: None }
    }

    /// The same archetype with its label set to `text`.
    pub fn with_text(self, text: components::Text) -> (r: Self)
        ensures
            r.scalar == self.scalar,
            r.text == Some(text),
    {
        let mut s = self;
        s.text = Some(text);
        s
    }

    /// The number of bytes the archetype holds on the heap: none for the
    /// scalar, and the UTF-8 length of the text where there is one.
    pub fn heap_size_bytes(&self) -> (r: u64)
        ensures
            r == match self.text {
                Some(t) => text_heap_size(t),
                None => 0,
            },
    {
        match &self.text {
            Some(t) => t.0.as_str().len() as u64,
            None => 0,
        }
    }

    /// Whether the archetype is plain old data: it is not, as its text may
    /// own heap memory.
    pub fn is_pod() -> (r: bool)
        ensures
            !r,
    {
        false
    }

    /// The name of the archetype.
    pub fn name() -> (r: String)
        ensures
            r@ == "rerun.archetypes.Scalar"@,
    {
        "rerun.archetypes.Scalar".to_owned()
    }

    /// The indicator batch of the archetype: one null under the indicator name.
    pub fn indicator() -> (r: ComponentBatch)
        ensures
            r.name@ == scalar_indicator_name(),
            r.column == ComponentColumn::Null(1),
    {
        ComponentBatch { name: components::scalar_indicator_component_name(), column: ComponentColumn::Null(1) }
    }

    /// The components the archetype requires: the scalar.
    pub fn required_components() -> (r: Vec<String>)
        ensures
            names(r@) == spec_required_components(),
    {
        let r = vec![components::scalar_component_name()];
        assert(names(r@) =~= spec_required_components());
        r
    }

    /// The components the archetype recommends: its indicator.
    pub fn recommended_components() -> (r: Vec<String>)
        ensures
            names(r@) == spec_recommended_components(),
    {
        let r = vec![components::scalar_indicator_component_name()];
        assert(names(r@) =~= spec_recommended_components());
        r
    }

    /// The components the archetype may have: instance keys and a text.
    pub fn optional_components() -> (r: Vec<String>)
        ensures
            names(r@) == spec_optional_components(),
    {
        let r = vec![components::instance_key_component_name(), components::text_component_name()];
        assert(names(r@) =~= spec_optional_components());
        r
    }

    /// All components of the archetype: the scalar, its indicator, instance
    /// keys and a text.
    pub fn all_components() -> (r: Vec<String>)
        ensures
            names(r@) == spec_all_components(),
    {
        let r = vec![
            components::scalar_component_name(),
            components::scalar_indicator_component_name(),
            components::instance_key_component_name(),
            components::text_component_name(),
        ];
        assert(names(r@) =~= spec_all_components());
        r
    }

    /// The number of instances the archetype logs: one.
    pub fn num_instances(&self) -> (r: usize)
        ensures
            r == 1,
    {
        1
    }

    /// The component batches the archetype is logged as: its indicator, its
    /// scalar as a one-value `Float64` column, and its text, where it has
    /// one, as a one-value `Utf8` column.
    pub fn as_component_batches(&self) -> (r: Vec<ComponentBatch>)
        ensures
            batches_of(*self, r@),
    {
        let mut r: Vec<ComponentBatch> = Vec::new();
        r.push(Scalar::indicator());
        let mut values: Vec<Option<u64>> = Vec::new();
        values.push(Some(self.scalar.0));
        assert(values@ =~= seq![Some(self.scalar.0)]);
        r.push(ComponentBatch { name: components::scalar_component_name(), column: ComponentColumn::Float64(values) });
        match &self.text {
            Some(t) => {
                let mut texts: Vec<Option<String>> = Vec::new();
                texts.push(Some(t.0.clone()));
                assert(texts@ =~= seq![Some(t.0)]);
                r.push(ComponentBatch { name: components::text_component_name(), column: ComponentColumn::Utf8(texts) });
            },
            None => {},
        }
        r
    }

    /// Reads a scalar archetype from component batches: the first value of the
    /// scalar column, which must be there and not null, and the first value
    /// of the text column where there is one.
    pub fn from_arrow_components(arrow_data: Vec<ComponentBatch>) -> (r: Result<Scalar, DeserializationError>)
        ensures
            r == spec_from_batches(arrow_data@),
    {
        let scalar_key = components::scalar_component_name();
        let scalar = match find_batch(&arrow_data, &scalar_key) {
            None => {
                return Err(DeserializationError::Context { location: ScalarField::Scalar, source: Box::new(DeserializationError::MissingData) });
            },
            Some(col) => match read_first_scalar(col) {
                Err(e) => {
                    return Err(DeserializationError::Context { location: ScalarField::Scalar, source: Box::new(e) });
                },
                Ok(None) => {
                    return Err(DeserializationError::Context { location: ScalarField::Scalar, source: Box::new(DeserializationError::MissingData) });
                },
                Ok(Some(s)) => s,
            },
        };
        let text_key = components::text_component_name();
        let text = match find_batch(&arrow_data, &text_key) {
            None => None,
            Some(col) => match read_first_text(col) {
                Err(e) => {
                    return Err(DeserializationError::Context { location: ScalarField::Text, source: Box::new(e) });
                },
                Ok(t) => t,
            },
        };
        Ok(Scalar { scalar, text })
    }
}

/// The components of the archetype are the required, then the recommended,
/// then the optional ones, and there are `NUM_COMPONENTS` of them.
pub proof fn lemma_all_components_partition()
    ensures
        spec_all_components() == spec_required_components() + spec_recommended_components()
            + spec_optional_components(),
        spec_all_components().len() == Scalar::NUM_COMPONENTS,
{
    assert(spec_all_components() =~= spec_required_components() + spec_recommended_components()
        + spec_optional_components());
}

/// The names of the components of the archetype are pairwise distinct.
pub proof fn lemma_component_names_distinct()
    ensures
        scalar_name() != scalar_indicator_name(),
        scalar_name() != instance_key_name(),
        scalar_name() != text_name(),
        scalar_indicator_name() != instance_key_name(),
        scalar_indicator_name() != text_name(),
        instance_key_name() != text_name(),
{
    reveal_strlit("rerun.components.Scalar");
    reveal_strlit("rerun.components.ScalarIndicator");
    reveal_strlit("rerun.components.InstanceKey");
    reveal_strlit("rerun.components.Text");
    assert(scalar_name().len() != scalar_indicator_name().len());
    assert(scalar_name().len() != instance_key_name().len());
    assert(scalar_name().len() != text_name().len());
    assert(scalar_indicator_name().len() != instance_key_name().len());
    assert(scalar_indicator_name().len() != text_name().len());
    assert(instance_key_name().len() != text_name().len());
}

/// Every batch an archetype is logged as is one of its components.
pub proof fn lemma_batches_are_components(s: Scalar, b: Seq<ComponentBatch>)
    requires
        batches_of(s, b),
    ensures
        forall|i: int| 0 <= i < b.len() ==> spec_all_components().contains(#[trigger] b[i].name@),
{
    assert forall|i: int| 0 <= i < b.len() implies spec_all_components().contains(#[trigger] b[i].name@) by {
        if i == 0 {
            assert(spec_all_components()[1] == b[i].name@);
        } else if i == 1 {
            assert(spec_all_components()[0] == b[i].name@);
        } else {
            assert(spec_all_components()[3] == b[i].name@);
        }
    }
}

/// Reading an archetype back from the batches it is logged as gives the
/// archetype itself.
pub proof fn lemma_read_back_logged(s: Scalar, b: Seq<ComponentBatch>)
    requires
        batches_of(s, b),
    ensures
        spec_from_batches(b) == Ok::<Scalar, DeserializationError>(s),
{
    lemma_component_names_distinct();
    if s.text is Some {
        assert(b.drop_last().drop_last().last() == b[0]);
        assert(b.drop_last().last() == b[1]);
        assert(b.drop_last().drop_last().drop_last().len() == 0);
        assert(find_column(b, scalar_name()) == find_column(b.drop_last(), scalar_name()));
        assert(find_column(b, text_name()) == Some(b[2].column));
    } else {
        assert(b.drop_last().last() == b[0]);
        assert(b.drop_last().drop_last().len() == 0);
        assert(find_column(b, scalar_name()) == Some(b[1].column));
        assert(find_column(b.drop_last(), text_name()) == find_column(b.drop_last().drop_last(), text_name()));
        assert(find_column(b, text_name()) == None::<ComponentColumn>);
    }
}

/// Where no batch is named `name` the batches give no column for it, and a
/// column they give for it is that of a batch of that name.
proof fn lemma_find_column_member(s: Seq<ComponentBatch>, name: Seq<char>)
    ensures
        (find_column(s, name) is None) == (forall|i: int| 0 <= i < s.len() ==> #[trigger] s[i].name@ != name),
        find_column(s, name) is Some ==> exists|i: int|
            0 <= i < s.len() && #[trigger] s[i].name@ == name && s[i].column == find_column(s, name).unwrap(),
    decreases s.len(),
{
    if s.len() > 0 {
        let t = s.drop_last();
        lemma_find_column_member(t, name);
        if s.last().name@ == name {
            assert(s[s.len() - 1].name@ == name);
        } else {
            assert forall|i: int| 0 <= i < t.len() implies t[i] == s[i] by {}
            if find_column(t, name) is Some {
                let i = choose|i: int|
                    0 <= i < t.len() && #[trigger] t[i].name@ == name && t[i].column == find_column(t, name).unwrap();
                assert(s[i].name@ == name);
            }
            if find_column(s, name) is None {
                assert forall|i: int| 0 <= i < s.len() implies #[trigger] s[i].name@ != name by {
                    if i < t.len() {
                        assert(t[i].name@ != name);
                    }
                }
            }
        }
    }
}

/// Where some batch is named `name` and all batches of that name hold the
/// same column, the batches give that column.
proof fn lemma_find_column_uniform(s: Seq<ComponentBatch>, name: Seq<char>, col: ComponentColumn)
    requires
        exists|i: int| 0 <= i < s.len() && #[trigger] s[i].name@ == name,
        forall|i: int| 0 <= i < s.len() && #[trigger] s[i].name@ == name ==> s[i].column == col,
    ensures
        find_column(s, name) == Some(col),
    decreases s.len(),
{
    let t = s.drop_last();
    if s.last().name@ != name {
        let i = choose|i: int| 0 <= i < s.len() && #[trigger] s[i].name@ == name;
        assert(t[i].name@ == name);
        assert forall|j: int| 0 <= j < t.len() && #[trigger] t[j].name@ == name implies t[j].column == col by {
            assert(t[j] == s[j]);
        }
        lemma_find_column_uniform(t, name, col);
    }
}

/// Batches of other names appended after the batches leave the column given
/// for `name` unchanged.
proof fn lemma_find_column_append_other(data: Seq<ComponentBatch>, extra: Seq<ComponentBatch>, name: Seq<char>)
    requires
        forall|i: int| 0 <= i < extra.len() ==> #[trigger] extra[i].name@ != name,
    ensures
        find_column(data + extra, name) == find_column(data, name),
    decreases extra.len(),
{
    if extra.len() == 0 {
        assert(data + extra =~= data);
    } else {
        let e = extra.drop_last();
        assert((data + extra).drop_last() =~= data + e);
        assert((data + extra).last() == extra[extra.len() - 1]);
        assert forall|i: int| 0 <= i < e.len() implies #[trigger] e[i].name@ != name by {
            assert(e[i] == extra[i]);
        }
        lemma_find_column_append_other(data, e, name);
    }
}

/// Reading an archetype ignores batches of components other than its scalar
/// and its text: appending such batches leaves the outcome unchanged.
pub proof fn lemma_read_ignores_other_batches(data: Seq<ComponentBatch>, extra: Seq<ComponentBatch>)
    requires
        forall|i: int|
            0 <= i < extra.len() ==> #[trigger] extra[i].name@ != scalar_name() && extra[i].name@ != text_name(),
    ensures
        spec_from_batches(data + extra) == spec_from_batches(data),
{
    lemma_find_column_append_other(data, extra, scalar_name());
    lemma_find_column_append_other(data, extra, text_name());
}

/// Where `q` holds the batches of `data` in another order (the same multiset)
/// and no two batches of `data` share a name, the batches give the same
/// column for `name`.
proof fn lemma_find_column_permuted(data: Seq<ComponentBatch>, q: Seq<ComponentBatch>, name: Seq<char>)
    requires
        forall|i: int, j: int| 0 <= i < j < data.len() ==> #[trigger] data[i].name@ != #[trigger] data[j].name@,
        q.to_multiset() == data.to_multiset(),
    ensures
        find_column(q, name) == find_column(data, name),
{
    lemma_find_column_member(data, name);
    lemma_find_column_member(q, name);
    assert forall|k: int| 0 <= k < q.len() implies data.contains(#[trigger] q[k]) by {
        assert(q.contains(q[k]));
        vstd::seq_lib::to_multiset_contains(q, q[k]);
        vstd::seq_lib::to_multiset_contains(data, q[k]);
    }
    if find_column(data, name) is Some {
        let i = choose|i: int|
            0 <= i < data.len() && #[trigger] data[i].name@ == name && data[i].column == find_column(data, name).unwrap();
        assert(data.contains(data[i]));
        vstd::seq_lib::to_multiset_contains(q, data[i]);
        vstd::seq_lib::to_multiset_contains(data, data[i]);
        assert(q.contains(data[i]));
        let k0 = choose|k: int| 0 <= k < q.len() && q[k] == data[i];
        assert(q[k0].name@ == name);
        assert forall|k: int| 0 <= k < q.len() && #[trigger] q[k].name@ == name implies q[k].column
            == data[i].column by {
            assert(data.contains(q[k]));
            let j = choose|j: int| 0 <= j < data.len() && data[j] == q[k];
            if j != i {
                if j < i {
                    assert(data[j].name@ != data[i].name@);
                } else {
                    assert(data[i].name@ != data[j].name@);
                }
            }
        }
        lemma_find_column_uniform(q, name, data[i].column);
    } else {
        assert forall|k: int| 0 <= k < q.len() implies #[trigger] q[k].name@ != name by {
            assert(data.contains(q[k]));
            let j = choose|j: int| 0 <= j < data.len() && data[j] == q[k];
            assert(data[j].name@ != name);
        }
    }
}

/// Reading an archetype does not depend on the order of its batches, where no
/// two batches share a name.
pub proof fn lemma_read_ignores_order(data: Seq<ComponentBatch>, q: Seq<ComponentBatch>)
    requires
        forall|i: int, j: int| 0 <= i < j < data.len() ==> #[trigger] data[i].name@ != #[trigger] data[j].name@,
        q.to_multiset() == data.to_multiset(),
    ensures
        spec_from_batches(q) == spec_from_batches(data),
{
    lemma_find_column_permuted(data, q, scalar_name());
    lemma_find_column_permuted(data, q, text_name());
}

/// Reading an archetype takes the first entry of each column, whatever the
/// column's length: where the scalar column is a `Float64` column whose first
/// entry is `x`, the read succeeds with scalar `x` unless the text column is
/// not `Utf8`; the text is the first entry of the `Utf8` text column (none
/// where it is null or the column is empty), and none without a text column.
pub proof fn lemma_read_takes_first_entries(b: Seq<ComponentBatch>, x: u64)
    requires
        find_column(b, scalar_name()) matches Some(ComponentColumn::Float64(v)) && v@.len() > 0 && v@[0]
            == Some(x),
    ensures
        find_column(b, text_name()) is None ==> spec_from_batches(b) == Ok::<Scalar, DeserializationError>(
            Scalar { scalar: components::Scalar(x), text: None },
        ),
        find_column(b, text_name()) matches Some(ComponentColumn::Utf8(t)) ==> spec_from_batches(b) == Ok::<
            Scalar,
            DeserializationError,
        >(
            Scalar {
                scalar: components::Scalar(x),
                text: if t@.len() > 0 && t@[0] is Some {
                    Some(components::Text(t@[0].unwrap()))
                } else {
                    None
                },
            },
        ),
        find_column(b, text_name()) matches Some(col) ==> (!(col is Utf8) ==> spec_from_batches(b) == Err::<
            Scalar,
            DeserializationError,
        >(
            in_context(
                ScalarField::Text,
                DeserializationError::DatatypeMismatch { expected: ColumnType::Utf8, got: col.spec_column_type() },
            ),
        )),
{
}

/// Reading an archetype fails, in the context of its scalar, exactly where the
/// scalar column is missing, is not a `Float64` column, is empty, or starts
/// with a null.
pub proof fn lemma_read_scalar_failures(b: Seq<ComponentBatch>)
    ensures
        find_column(b, scalar_name()) is None ==> spec_from_batches(b) == Err::<Scalar, DeserializationError>(
            in_context(ScalarField::Scalar, DeserializationError::MissingData),
        ),
        find_column(b, scalar_name()) matches Some(col) ==> (!(col is Float64) ==> spec_from_batches(b) == Err::<
            Scalar,
            DeserializationError,
        >(
            in_context(
                ScalarField::Scalar,
                DeserializationError::DatatypeMismatch { expected: ColumnType::Float64, got: col.spec_column_type() },
            ),
        )),
        find_column(b, scalar_name()) matches Some(ComponentColumn::Float64(v)) && (v@.len() == 0 || v@[0] is None)
            ==> spec_from_batches(b) == Err::<Scalar, DeserializationError>(
            in_context(ScalarField::Scalar, DeserializationError::MissingData),
        ),
{
}

} // verus!
