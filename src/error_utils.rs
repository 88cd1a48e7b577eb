use vstd::prelude::*;

verus! {

/// `operation failed: details`.
pub fn format_error(operation: &str, details: &str) -> (r: String)
    ensures
        r@ == operation@ + " failed: "@ + details@,
{
    let mut out = String::from_str(operation);
    out.append(" failed: ");
    out.append(details);
    out
}

/// The error of `result`, if any, put as `context: error`.
pub fn wrap_error<T>(result: Result<T, String>, context: &str) -> (r: Result<T, String>)
    ensures
        result is Ok ==> r == result,
        result matches Err(e) ==> r matches Err(m) && m@ == context@ + ": "@ + e@,
{
    match result {
        Ok(v) => Ok(v),
        Err(e) => {
            let mut out = String::from_str(context);
            out.append(": ");
            out.append(e.as_str());
            Err(out)
        },
    }
}

} // verus!
