//! Data files and delete files.

use vstd::prelude::*;

verus! {

/// What the rows of a file stand for.
#[derive(Debug, Clone, Copy, PartialEq, Eq, Structural)]
pub enum DataContentType {
    /// Rows of the table.
    Data,
    /// Positions of deleted rows.
    PositionDeletes,
    /// Values that deleted rows equal.
    EqualityDeletes,
}

/// How a file is written.
#[derive(Debug, Clone, Copy, PartialEq, Eq, Structural)]
pub enum DataFileFormat {
    /// Avro.
    Avro,
    /// ORC.
    Orc,
    /// Parquet.
    Parquet,
    /// Puffin.
    Puffin,
}

/// The field of position delete files that holds the path of the data file.
pub const FIELD_ID_POSITIONAL_DELETE_FILE_PATH: i32 = 2147483546;

/// The value of a field.
///
/// Floating-point numbers are held by their bits; numbers that count as equal
/// are given the same bits.
#[derive(Debug, Clone, PartialEq, Eq)]
pub enum Literal {
    /// A truth value.
    Boolean(bool),
    /// A 32-bit integer.
    Int(i32),
    /// A 64-bit integer.
    Long(i64),
    /// The bits of a 32-bit floating-point number.
    FloatBits(u32),
    /// The bits of a 64-bit floating-point number.
    DoubleBits(u64),
    /// A 128-bit integer.
    Int128(i128),
    /// An unsigned 128-bit integer.
    UInt128(u128),
    /// A text.
    Text(String),
    /// Bytes.
    Binary(Vec<u8>),
}

/// The mathematical value of a [`Literal`].
#[verifier::ext_equal]
pub enum LiteralView {
    /// A truth value.
    Boolean(bool),
    /// A 32-bit integer.
    Int(i32),
    /// A 64-bit integer.
    Long(i64),
    /// The bits of a 32-bit floating-point number.
    FloatBits(u32),
    /// The bits of a 64-bit floating-point number.
    DoubleBits(u64),
    /// A 128-bit integer.
    Int128(i128),
    /// An unsigned 128-bit integer.
    UInt128(u128),
    /// A text.
    Text(Seq<char>),
    /// Bytes.
    Binary(Seq<u8>),
}

impl View for Literal {
    type V = LiteralView;

    open spec fn view(&self) -> LiteralView {
        match *self {
            Literal::Boolean(value) => LiteralView::Boolean(value),
            Literal::Int(value) => LiteralView::Int(value),
            Literal::Long(value) => LiteralView::Long(value),
            Literal::FloatBits(value) => LiteralView::FloatBits(value),
            Literal::DoubleBits(value) => LiteralView::DoubleBits(value),
            Literal::Int128(value) => LiteralView::Int128(value),
            Literal::UInt128(value) => LiteralView::UInt128(value),
            Literal::Text(value) => LiteralView::Text(value@),
            Literal::Binary(value) => LiteralView::Binary(value@),
        }
    }
}

/// Tells whether two byte strings are the same.
fn same_bytes(left: &Vec<u8>, right: &Vec<u8>) -> (same: bool)
    ensures
        same == (left@ == right@),
{
    if left.len() != right.len() {
        return false;
    }
    for i in 0..left.len()
        invariant
            left@.len() == right@.len(),
            forall|j: int| 0 <= j < i ==> left@[j] == right@[j],
    {
        if left[i] != right[i] {
            return false;
        }
    }
    assert(left@ =~= right@);
    true
}

impl Literal {
    /// Tells whether two values are the same.
    pub fn same_as(&self, other: &Literal) -> (same: bool)
        ensures
            same == (self@ == other@),
    {
        match (self, other) {
            (Literal::Boolean(left), Literal::Boolean(right)) => *left == *right,
            (Literal::Int(left), Literal::Int(right)) => *left == *right,
            (Literal::Long(left), Literal::Long(right)) => *left == *right,
            (Literal::FloatBits(left), Literal::FloatBits(right)) => *left == *right,
            (Literal::DoubleBits(left), Literal::DoubleBits(right)) => *left == *right,
            (Literal::Int128(left), Literal::Int128(right)) => *left == *right,
            (Literal::UInt128(left), Literal::UInt128(right)) => *left == *right,
            (Literal::Text(left), Literal::Text(right)) => *left == *right,
            (Literal::Binary(left), Literal::Binary(right)) => same_bytes(left, right),
            _ => false,
        }
    }
}

/// A file that a table is made of.
#[derive(Debug, Clone, PartialEq, Eq)]
pub struct DataFile {
    /// What the rows stand for.
    pub content: DataContentType,
    /// Full path of the file.
    pub file_path: String,
    /// How the file is written.
    pub file_format: DataFileFormat,
    /// The partition spec that `partition` belongs to.
    pub partition_spec_id: i32,
    /// One value for each partition field.
    pub partition: Vec<Option<Literal>>,
    /// Number of rows.
    pub record_count: u64,
    /// Size of the file.
    pub file_size_in_bytes: u64,
    /// Size of each column.
    pub column_sizes: Vec<(i32, u64)>,
    /// Number of values in each column.
    pub value_counts: Vec<(i32, u64)>,
    /// Number of null values in each column.
    pub null_value_counts: Vec<(i32, u64)>,
    /// Number of not-a-number values in each column.
    pub nan_value_counts: Vec<(i32, u64)>,
    /// A lower bound of the values of each column, where known.
    pub lower_bounds: Vec<(i32, Literal)>,
    /// An upper bound of the values of each column, where known.
    pub upper_bounds: Vec<(i32, Literal)>,
    /// Key metadata of the file.
    pub key_metadata: Option<Vec<u8>>,
    /// Where the file can be split.
    pub split_offsets: Option<Vec<i64>>,
    /// The fields that an equality delete file compares.
    pub equality_ids: Option<Vec<i32>>,
    /// The order of the rows.
    pub sort_order_id: Option<i32>,
    /// The one data file that a position delete file is about, where it says so.
    pub referenced_data_file: Option<String>,
    /// Where the content starts within the file.
    pub content_offset: Option<i64>,
    /// How long the content is within the file.
    pub content_size_in_bytes: Option<i64>,
}

/// The first bound that stands under the given column.
pub open spec fn bound_of(bounds: Seq<(i32, Literal)>, column: i32) -> Option<LiteralView>
    decreases bounds.len(),
{
    if bounds.len() == 0 {
        None
    } else if bounds[0].0 == column {
        Some(bounds[0].1@)
    } else {
        bound_of(bounds.drop_first(), column)
    }
}

/// Returns the first bound that stands under the given column.
fn find_bound(bounds: &Vec<(i32, Literal)>, column: i32) -> (bound: Option<&Literal>)
    ensures
        bound is Some == bound_of(bounds@, column) is Some,
        bound matches Some(value) ==> bound_of(bounds@, column) == Some(value@),
{
    assert(bounds@.skip(0) =~= bounds@);
    for i in 0..bounds.len()
        invariant
            bound_of(bounds@, column) == bound_of(bounds@.skip(i as int), column),
    {
        if bounds[i].0 == column {
            return Some(&bounds[i].1);
        }
        assert(bounds@.skip(i as int).drop_first() =~= bounds@.skip(i + 1));
    }
    None
}

/// The value of one partition field, or none.
pub open spec fn partition_value(value: Option<Literal>) -> Option<LiteralView> {
    match value {
        Some(literal) => Some(literal@),
        None => None,
    }
}

/// The values of all partition fields.
pub open spec fn partition_values(partition: Seq<Option<Literal>>) -> Seq<Option<LiteralView>> {
    partition.map_values(|value: Option<Literal>| partition_value(value))
}

impl DataFile {
    /// The path of this file.
    pub open spec fn path(self) -> Seq<char> {
        self.file_path@
    }

    /// This is a position or equality delete file.
    pub open spec fn holds_deletes(self) -> bool {
        self.content != DataContentType::Data
    }

    /// Both files lie in the same partition of the same partition spec.
    pub open spec fn shares_partition(self, other: DataFile) -> bool {
        self.partition_spec_id == other.partition_spec_id && partition_values(self.partition@)
            == partition_values(other.partition@)
    }

    /// The one data file that this position delete file is about: the one that it
    /// references, or else the one that both bounds of its `file_path` column
    /// are.
    pub open spec fn only_target(self) -> Option<Seq<char>> {
        match self.referenced_data_file {
            Some(path) => Some(path@),
            None => match (
                bound_of(self.lower_bounds@, FIELD_ID_POSITIONAL_DELETE_FILE_PATH),
                bound_of(self.upper_bounds@, FIELD_ID_POSITIONAL_DELETE_FILE_PATH),
            ) {
                (Some(LiteralView::Text(lower)), Some(LiteralView::Text(upper))) => if lower
                    == upper {
                    Some(lower)
                } else {
                    None
                },
                _ => None,
            },
        }
    }

    /// Returns what the rows of this file stand for.
    pub fn content_type(&self) -> (content: DataContentType)
        ensures
            content == self.content,
    {
        self.content
    }

    /// Returns the path of this file.
    pub fn file_path(&self) -> (path: &str)
        ensures
            path@ == self.path(),
    {
        self.file_path.as_str()
    }

    /// Returns the one data file that this position delete file is about, where
    /// it is known.
    pub fn find_only_target(&self) -> (target: Option<&String>)
        ensures
            target is Some == self.only_target() is Some,
            target matches Some(path) ==> self.only_target() == Some(path@),
    {
        if let Some(path) = &self.referenced_data_file {
            return Some(path);
        }
        let lower: Option<&Literal> = find_bound(
            &self.lower_bounds,
            FIELD_ID_POSITIONAL_DELETE_FILE_PATH,
        );
        let upper: Option<&Literal> = find_bound(
            &self.upper_bounds,
            FIELD_ID_POSITIONAL_DELETE_FILE_PATH,
        );
        match (lower, upper) {
            (Some(Literal::Text(lower)), Some(Literal::Text(upper))) => if *lower == *upper {
                Some(lower)
            } else {
                None
            },
            _ => None,
        }
    }

    /// Tells whether both files lie in the same partition of the same partition spec.
    pub fn in_partition_of(&self, other: &DataFile) -> (same: bool)
        ensures
            same == self.shares_partition(*other),
    {
        if self.partition_spec_id != other.partition_spec_id {
            return false;
        }
        let ghost left = partition_values(self.partition@);
        let ghost right = partition_values(other.partition@);
        if self.partition.len() != other.partition.len() {
            assert(left.len() != right.len());
            return false;
        }
        for field in 0..self.partition.len()
            invariant
                self.partition@.len() == other.partition@.len(),
                left == partition_values(self.partition@),
                right == partition_values(other.partition@),
                forall|i: int| 0 <= i < field ==> #[trigger] left[i] == right[i],
        {
            let same: bool = match (&self.partition[field], &other.partition[field]) {
                (Some(mine), Some(theirs)) => mine.same_as(theirs),
                (None, None) => true,
                _ => false,
            };
            assert(left[field as int] == partition_value(self.partition@[field as int]));
            assert(right[field as int] == partition_value(other.partition@[field as int]));
            if !same {
                return false;
            }
        }
        assert(left =~= right);
        true
    }
}

} // verus!
