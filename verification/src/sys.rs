use vstd::prelude::*;

verus! {

/// Size of the name and path buffers that libcgroup fills in.
pub const FILENAME_MAX: usize = 4096;

/// Size of the value buffer of a statistic.
pub const CG_VALUE_MAX: usize = 100;

/// Order in which a tree walk reports a directory: before or after its
/// children.
#[allow(non_camel_case_types)]
#[derive(Clone, Copy, Debug, PartialEq, Eq, Structural)]
pub enum group_walk_type {
    CGROUP_WALK_TYPE_PRE_DIR,
    CGROUP_WALK_TYPE_POST_DIR,
}

impl group_walk_type {
    /// The flag value that libcgroup expects for this walk order.
    pub fn flag(&self) -> (f: i32)
        ensures
            f == (match *self {
                group_walk_type::CGROUP_WALK_TYPE_PRE_DIR => 1i32,
                group_walk_type::CGROUP_WALK_TYPE_POST_DIR => 2i32,
            }),
    {
        match self {
            group_walk_type::CGROUP_WALK_TYPE_PRE_DIR => 1,
            group_walk_type::CGROUP_WALK_TYPE_POST_DIR => 2,
        }
    }
}

/// Kind of an entry met during a tree walk.
#[allow(non_camel_case_types)]
#[derive(Clone, Copy, Debug, PartialEq, Eq, Structural)]
pub enum cgroup_file_type {
    CGROUP_FILE_TYPE_FILE,
    CGROUP_FILE_TYPE_DIR,
    CGROUP_FILE_TYPE_OTHER,
}

/// A controller as `cgroup_get_all_controller_begin` / `_next` describe
/// it: its NUL-terminated name buffer, its hierarchy, how many groups it
/// has and whether it is enabled.
#[allow(non_camel_case_types)]
pub struct controller_data {
    pub name: Vec<u8>,
    pub hierarchy: i32,
    pub num_cgroups: i32,
    pub enabled: i32,
}

/// A copy of the bytes of `v`.
pub fn copy_bytes(v: &Vec<u8>) -> (c: Vec<u8>)
    ensures
        c@ == v@,
{
    let c = v.clone();
    assert(c@ =~= v@);
    c
}

impl Clone for controller_data {
    /// A copy of the record: the same name bytes and the same counts.
    fn clone(&self) -> (c: controller_data)
        ensures
            c.name@ == self.name@,
            c.hierarchy == self.hierarchy,
            c.num_cgroups == self.num_cgroups,
            c.enabled == self.enabled,
    {
        controller_data {
            name: copy_bytes(&self.name),
            hierarchy: self.hierarchy,
            num_cgroups: self.num_cgroups,
            enabled: self.enabled,
        }
    }
}

/// A controller record with every byte zero: a name buffer of
/// `FILENAME_MAX` NUL bytes and all counts zero, ready to be filled in.
pub fn new_controller_data() -> (d: controller_data)
    ensures
        d.name@ == Seq::new(FILENAME_MAX as nat, |i: int| 0u8),
        d.hierarchy == 0,
        d.num_cgroups == 0,
        d.enabled == 0,
{
    let name = vec![0u8; FILENAME_MAX];
    assert(name@ =~= Seq::new(FILENAME_MAX as nat, |i: int| 0u8));
    controller_data { name, hierarchy: 0, num_cgroups: 0, enabled: 0 }
}

impl Default for controller_data {
    /// The zeroed record of `new_controller_data`.
    fn default() -> (d: controller_data)
        ensures
            d.name@ == Seq::new(FILENAME_MAX as nat, |i: int| 0u8),
            d.hierarchy == 0,
            d.num_cgroups == 0,
            d.enabled == 0,
    {
        new_controller_data()
    }
}

/// A statistic of a group as `cgroup_read_stats_begin` / `_next` fill it
/// in: its NUL-terminated name and value buffers.
#[allow(non_camel_case_types)]
pub struct cgroup_stat {
    pub name: Vec<u8>,
    pub value: Vec<u8>,
}

impl Clone for cgroup_stat {
    /// A copy of the statistic: the same name and value bytes.
    fn clone(&self) -> (c: cgroup_stat)
        ensures
            c.name@ == self.name@,
            c.value@ == self.value@,
    {
        cgroup_stat { name: copy_bytes(&self.name), value: copy_bytes(&self.value) }
    }
}

impl Default for cgroup_stat {
    /// A statistic with every byte zero: a name buffer of `FILENAME_MAX` and
    /// a value buffer of `CG_VALUE_MAX` NUL bytes.
    fn default() -> (st: cgroup_stat)
        ensures
            st.name@ == Seq::new(FILENAME_MAX as nat, |i: int| 0u8),
            st.value@ == Seq::new(CG_VALUE_MAX as nat, |i: int| 0u8),
    {
        let name = vec![0u8; FILENAME_MAX];
        let value = vec![0u8; CG_VALUE_MAX];
        assert(name@ =~= Seq::new(FILENAME_MAX as nat, |i: int| 0u8));
        assert(value@ =~= Seq::new(CG_VALUE_MAX as nat, |i: int| 0u8));
        cgroup_stat { name, value }
    }
}

} // verus!
