use vstd::prelude::*;

verus! {

/// Return code of an iteration step once nothing is left to read.
pub const ECGEOF: i32 = 50023;

/// Generic failure code of libcgroup.
pub const ECGFAIL: i32 = 50013;

/// Two control groups compared unequal.
pub const ECGROUPNOTEQUAL: i32 = 50017;

/// Two controllers compared unequal.
pub const ECGCONTROLLERNOTEQUAL: i32 = 50018;

/// An error reported by libcgroup: its numeric code and the text that
/// libcgroup gives for that code.
#[derive(Debug)]
pub struct CGroupError {
    pub code: i32,
    pub description: String,
}

/// Result of an operation of this crate.
pub type CGroupResult<T> = std::result::Result<T, CGroupError>;

/// `e` reports the code `code`, with the description that `describe` gives for it.
pub open spec fn reports<F: Fn(i32) -> String>(describe: F, code: i32, e: CGroupError) -> bool {
    &&& e.code == code
    &&& describe.ensures((code,), e.description)
}

/// Turns a libcgroup return code into a result: `0` is success and hands
/// back `val`; any other code is an error carrying the code and the
/// description that `describe` gives for it (libcgroup's `cgroup_strerror`).
pub fn check_return<T, F: Fn(i32) -> String>(ret: i32, val: T, describe: F) -> (res: CGroupResult<T>)
    requires
        ret != 0 ==> describe.requires((ret,)),
    ensures
        res is Ok <==> ret == 0,
        res matches Ok(v) ==> v == val,
        res matches Err(e) ==> reports(describe, ret, e),
{
    if ret == 0 {
        Ok(val)
    } else {
        let description = describe(ret);
        Err(CGroupError { code: ret, description })
    }
}

} // verus!
