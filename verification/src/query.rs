//! The decision that a query request makes before it runs: in which format
//! its result is to be written.
use vstd::prelude::*;

verus! {

/// The format asked for, or "csv" when none is; only "csv" is supported, and
/// any other format is refused with the message given.
pub open spec fn output_format_spec(requested: Option<Seq<char>>) -> Result<Seq<char>, Seq<char>> {
    let format = match requested {
        Some(f) => f,
        None => "csv"@,
    };
    if format == "csv"@ {
        Ok(format)
    } else {
        Err("Only support csv in the moment"@)
    }
}

/// The format in which to write a query's result: the one requested, or
/// "csv" by default; an error message when it is not "csv".
pub fn output_format(requested: Option<String>) -> (r: Result<String, String>)
    ensures
        output_format_spec(
            match requested {
                Some(f) => Some(f@),
                None => None,
            },
        ) == match r {
            Ok(f) => Ok::<Seq<char>, Seq<char>>(f@),
            Err(m) => Err(m@),
        },
        r matches Ok(f) ==> f@ == "csv"@,
        requested is None ==> (r matches Ok(f) && f@ == "csv"@),
        (requested matches Some(f) && f@ != "csv"@) ==> (r matches Err(m) && m@
            == "Only support csv in the moment"@),
{
    let csv = String::from_str("csv");
    let format = match requested {
        Some(f) => f,
        None => String::from_str("csv"),
    };
    if format == csv {
        Ok(format)
    } else {
        Err(String::from_str("Only support csv in the moment"))
    }
}

/// Only "csv" is ever chosen: a missing format chooses "csv", "csv" is
/// accepted, and every other requested format is refused with the message
/// that only csv is supported.
pub proof fn law_only_csv(requested: Option<Seq<char>>)
    ensures
        output_format_spec(requested) matches Ok(f) ==> f == "csv"@,
        requested is None ==> output_format_spec(requested) == Ok::<Seq<char>, Seq<char>>("csv"@),
        (requested matches Some(f) && f != "csv"@) ==> output_format_spec(requested) == Err::<
            Seq<char>,
            Seq<char>,
        >("Only support csv in the moment"@),
{
}

} // verus!
