use vstd::prelude::*;

use crate::codec::DecodeError;
use crate::json::{Json, JsonM};
use crate::stmt::LogFlag;

verus! {

/// Decodes a wire value that may be null, a single string, or an array
/// of strings into a list of strings: null becomes the empty list and
/// a bare string a one-element list.
pub fn single_string_to_vec(j: &Json) -> (r: Result<Vec<String>, DecodeError>)
    ensures
        r matches Ok(v) ==> crate::codec::dec_string_or_list(j@) == Some(
            crate::codec::strs_m(v@),
        ),
        r is Err ==> crate::codec::dec_string_or_list(j@) is None,
{
    match j {
        Json::Null => Ok(Vec::new()),
        Json::Str(s) => {
            let mut v: Vec<String> = Vec::new();
            v.push(s.clone());
            proof {
                assert(crate::codec::strs_m(v@) =~= seq![s@]);
            }
            Ok(v)
        },
        _ => crate::codec::decode_strs(j),
    }
}

/// Decodes a wire value as `single_string_to_vec` does, then turns the
/// empty list into none: decoding a device field given as a bare
/// string, as null, or as a one-element array all produce the same
/// singleton-or-empty collection.
pub fn single_string_to_option_vec(j: &Json) -> (r: Result<Option<Vec<String>>, DecodeError>)
    ensures
        r matches Ok(v) ==> (crate::codec::dec_string_or_list(j@) matches Some(ds) && (match v {
            Some(xs) => ds.len() > 0 && crate::codec::strs_m(xs@) == ds,
            None => ds.len() == 0,
        })),
        r is Err ==> crate::codec::dec_string_or_list(j@) is None,
{
    let v = single_string_to_vec(j)?;
    if v.len() == 0 {
        Ok(None)
    } else {
        Ok(Some(v))
    }
}

/// Decodes a wire value that may be null, a single flag token, or an
/// array of log flags into an optional flag list, as the `flags`
/// property of a log statement accepts it.  All three shapes use the
/// same closed wire vocabulary.
pub fn single_string_to_option_logflags(j: &Json) -> (r: Result<
    Option<Vec<LogFlag>>,
    DecodeError,
>)
    ensures
        r matches Ok(v) ==> (match j@ {
            JsonM::Null => v is None,
            JsonM::Str(t) => (crate::stmt::log_flag_inv(t) matches Some(f) && v matches Some(
                xs,
            ) && xs@ == seq![f]),
            _ => (crate::codec::dec_log_flags(j@) matches Some(fs) && v matches Some(xs) && xs@
                == fs),
        }),
        r is Err ==> (match j@ {
            JsonM::Null => false,
            JsonM::Str(t) => crate::stmt::log_flag_inv(t) is None,
            _ => crate::codec::dec_log_flags(j@) is None,
        }),
{
    match j {
        Json::Null => Ok(None),
        Json::Str(t) => match crate::stmt::log_flag_from_wire(t.as_str()) {
            Some(f) => {
                let mut fs: Vec<LogFlag> = Vec::new();
                fs.push(f);
                proof {
                    assert(fs@ =~= seq![f]);
                }
                Ok(Some(fs))
            },
            None => Err(DecodeError::here("unknown enum value")),
        },
        _ => match crate::codec::decode_log_flags(j) {
            Ok(fs) => Ok(Some(fs)),
            Err(e) => Err(e),
        },
    }
}

} // verus!
