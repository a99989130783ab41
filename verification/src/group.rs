use vstd::prelude::*;
use crate::init::InitState;
use crate::result::{check_return, reports, CGroupError, CGroupResult, ECGFAIL};

verus! {

/// The `ignore_ownership` argument of every `cgroup_create_cgroup` call:
/// 0, so that libcgroup sets the ownership of the group it creates.
pub const IGNORE_OWNERSHIP: i32 = 0;

/// A control group that libcgroup has allocated, known by the name it was
/// made with.
pub struct CGroup {
    name: String,
}

impl View for CGroup {
    type V = Seq<char>;

    /// The name of the group.
    closed spec fn view(&self) -> Seq<char> {
        self.name@
    }
}

impl CGroup {
    /// Takes in the answer of `cgroup_new_cgroup` for `name`, called once
    /// libcgroup has been initialised: the group when libcgroup allocated
    /// it, else the generic failure `ECGFAIL` with its description.
    pub fn new<F: Fn(i32) -> String>(
        name: String,
        allocated: bool,
        describe: F,
        init: &InitState,
    ) -> (r: CGroupResult<CGroup>)
        requires
            init.is_initialized(),
            !name@.contains('\0'),
            !allocated ==> describe.requires((ECGFAIL,)),
        ensures
            r is Ok <==> allocated,
            r matches Ok(g) ==> g@ == name@,
            r matches Err(e) ==> reports(describe, ECGFAIL, e),
    {
        if allocated {
            Ok(CGroup { name })
        } else {
            let description = describe(ECGFAIL);
            Err(CGroupError { code: ECGFAIL, description })
        }
    }

    /// Takes in the return code of `cgroup_create_cgroup` for this group,
    /// called with `IGNORE_OWNERSHIP`: the group itself on success, else that code with its description.
    pub fn create<F: Fn(i32) -> String>(&self, ret: i32, describe: F) -> (r: CGroupResult<
        &CGroup,
    >)
        requires
            ret != 0 ==> describe.requires((ret,)),
        ensures
            r is Ok <==> ret == 0,
            r matches Ok(g) ==> g == self,
            r matches Err(e) ==> reports(describe, ret, e),
    {
        check_return(ret, self, describe)
    }

    /// Takes in the answer of `cgroup_add_controller` for this group and the
    /// controller `controller`, whose name cannot hold U+0000: the group
    /// itself when libcgroup added the controller, else the generic failure
    /// `ECGFAIL` with its description.
    pub fn add_controller<F: Fn(i32) -> String>(
        &self,
        controller: &str,
        added: bool,
        describe: F,
    ) -> (r: CGroupResult<&CGroup>)
        requires
            !controller@.contains('\0'),
            !added ==> describe.requires((ECGFAIL,)),
        ensures
            r is Ok <==> added,
            r matches Ok(g) ==> g == self,
            r matches Err(e) ==> reports(describe, ECGFAIL, e),
    {
        if added {
            Ok(self)
        } else {
            check_return(ECGFAIL, self, describe)
        }
    }
}

} // verus!
