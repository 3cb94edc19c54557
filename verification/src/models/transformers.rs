//! The sentence-transformer embedding function as far as it decides
//! without computing: which sources it takes.

use vstd::prelude::*;

verus! {

/// The name under which the embedding function is registered.
pub const NAME: &'static str = "sentence-transformers";

/// The type of the values of a source column.
#[derive(Clone, Copy, Debug, PartialEq, Eq, Structural)]
pub enum SourceType {
    Utf8,
    LargeUtf8,
    Utf8View,
    Other,
}

/// Why a source column is refused.
#[derive(Clone, Copy, Debug)]
pub enum SourceError {
    InvalidInput { message: &'static str },
    Runtime { message: &'static str },
}

/// The message for a source column that may hold nulls.
pub const NULLABLE_SOURCE: &'static str = "Expected non-nullable data type";

/// The message for a source column that holds no strings.
pub const NOT_UTF8: &'static str = "Expected Utf8 data type";

/// The message for a source column that holds a null.
pub const NULL_VALUES: &'static str = "null values not supported";

/// The embedding function.
#[derive(Debug)]
pub struct SentenceTransformersEmbeddings {
    /// The number of components of an embedding, where it is known.
    pub n_dims: Option<usize>,
}

impl SentenceTransformersEmbeddings {
    /// The embedding function for embeddings of the given size, if it is
    /// known.
    pub fn new(n_dims: Option<usize>) -> (embeddings: Self)
        ensures
            embeddings.n_dims == n_dims,
    {
        SentenceTransformersEmbeddings { n_dims }
    }

    /// Decides whether a source column is taken. A column that may hold
    /// nulls is refused first, then one that holds no strings, then one
    /// that holds a null; what is left is a column of strings.
    pub fn check_source(nullable: bool, data_type: SourceType, null_count: usize) -> (checked: Result<
        SourceType,
        SourceError,
    >)
        ensures
            nullable ==> checked is Err && checked->Err_0 is InvalidInput
                && checked->Err_0->InvalidInput_message@ == NULLABLE_SOURCE@,
            !nullable && data_type != SourceType::Utf8 && data_type != SourceType::LargeUtf8 ==> checked is Err
                && checked->Err_0 is InvalidInput && checked->Err_0->InvalidInput_message@ == NOT_UTF8@,
            !nullable && (data_type == SourceType::Utf8 || data_type == SourceType::LargeUtf8) && null_count
                > 0 ==> checked is Err && checked->Err_0 is Runtime && checked->Err_0->Runtime_message@
                == NULL_VALUES@,
            !nullable && (data_type == SourceType::Utf8 || data_type == SourceType::LargeUtf8) && null_count
                == 0 ==> checked == Ok::<SourceType, SourceError>(data_type),
    {
        if nullable {
            return Err(SourceError::InvalidInput { message: NULLABLE_SOURCE });
        }
        match data_type {
            SourceType::Utf8 | SourceType::LargeUtf8 => {
                if null_count > 0 {
                    Err(SourceError::Runtime { message: NULL_VALUES })
                } else {
                    Ok(data_type)
                }
            },
            _ => Err(SourceError::InvalidInput { message: NOT_UTF8 }),
        }
    }
}

} // verus!
