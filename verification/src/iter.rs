use vstd::prelude::*;
use crate::cstr::{
    c_string_lossy, c_string_of, lemma_read_c_string_prefix, nul_free, read_c_string, utf8_lossy,
};
use crate::init::InitState;
use vstd::utf8::encode_utf8;
use crate::result::{check_return, reports, CGroupError, CGroupResult, ECGEOF};
use crate::sys::{cgroup_file_type, copy_bytes, FILENAME_MAX};

verus! {

/// Which libcgroup function the next step of an iteration calls: the
/// `_begin` function, which opens the iteration handle, or the `_next`
/// function, which reads through an open handle.
#[derive(Clone, Copy, Debug, PartialEq, Eq, Structural)]
pub enum IterCall {
    Begin,
    Next,
}

/// A mount point as `cgroup_get_controller_begin` / `_next` fill it in:
/// the controller's name and its mount path, each a NUL-terminated buffer.
#[allow(non_camel_case_types)]
#[derive(Debug)]
pub struct cgroup_mount_point {
    pub name: Vec<u8>,
    pub path: Vec<u8>,
}

impl Clone for cgroup_mount_point {
    /// A copy of the record: the same name and path bytes.
    fn clone(&self) -> (c: cgroup_mount_point)
        ensures
            c.name@ == self.name@,
            c.path@ == self.path@,
    {
        cgroup_mount_point { name: copy_bytes(&self.name), path: copy_bytes(&self.path) }
    }
}

impl Default for cgroup_mount_point {
    /// A record with every byte zero: two buffers of `FILENAME_MAX` NUL
    /// bytes, ready to be filled in.
    fn default() -> (mp: cgroup_mount_point)
        ensures
            mp.name@ == Seq::new(FILENAME_MAX as nat, |i: int| 0u8),
            mp.path@ == Seq::new(FILENAME_MAX as nat, |i: int| 0u8),
    {
        let name = vec![0u8; FILENAME_MAX];
        let path = vec![0u8; FILENAME_MAX];
        assert(name@ =~= Seq::new(FILENAME_MAX as nat, |i: int| 0u8));
        assert(path@ =~= Seq::new(FILENAME_MAX as nat, |i: int| 0u8));
        cgroup_mount_point { name, path }
    }
}

/// A controller and the path where its hierarchy is mounted.
#[derive(Debug)]
pub struct CGroupMount {
    pub controller_name: String,
    pub path: String,
}

/// `m` holds the two C strings of `mp`, read as text.
pub open spec fn mount_read_from(m: CGroupMount, mp: cgroup_mount_point) -> bool {
    &&& read_c_string(m.controller_name@, mp.name@)
    &&& read_c_string(m.path@, mp.path@)
}

impl CGroupMount {
    /// Reads the controller name and the mount path out of the buffers
    /// that libcgroup filled in.
    pub fn from_mount_point(mp: cgroup_mount_point) -> (m: CGroupMount)
        ensures
            mount_read_from(m, mp),
    {
        let controller_name = c_string_lossy(mp.name.as_slice());
        let path = c_string_lossy(mp.path.as_slice());
        CGroupMount { controller_name, path }
    }
}

impl From<cgroup_mount_point> for CGroupMount {
    /// Reads the controller name and the mount path out of the buffers, as
    /// `from_mount_point` does.
    fn from(mp: cgroup_mount_point) -> (m: CGroupMount)
        ensures
            mount_read_from(m, mp),
    {
        CGroupMount::from_mount_point(mp)
    }
}

/// `From` on mount points read through the trait: the strings of the
/// result are fixed by their text only, which names no single value, so the
/// trait states no spec result; the impl's own `ensures` states it.
impl vstd::std_specs::convert::FromSpecImpl<cgroup_mount_point> for CGroupMount {
    open spec fn obeys_from_spec() -> bool {
        false
    }

    open spec fn from_spec(mp: cgroup_mount_point) -> CGroupMount {
        choose|m: CGroupMount| mount_read_from(m, mp)
    }
}

/// What libcgroup answered to one step of the mount-point iteration: the
/// return code, whether the iteration handle is open afterwards, and the
/// record it filled in.
pub struct MountStep {
    pub ret: i32,
    pub handle_open: bool,
    pub mount: cgroup_mount_point,
}

/// `r` is what one step of the mount-point iteration yields for the answer
/// `step`: nothing at the end of the iteration (`ECGEOF`), the mount point
/// read from the filled-in record on success (0), and otherwise an error
/// carrying the code and the description that `describe` gives for it.
pub open spec fn yields_mount<F: Fn(i32) -> String>(
    step: MountStep,
    describe: F,
    r: Option<CGroupResult<CGroupMount>>,
) -> bool {
    &&& r is None <==> step.ret == ECGEOF
    &&& r matches Some(Ok(m)) ==> step.ret == 0 && mount_read_from(m, step.mount)
    &&& r matches Some(Err(e)) ==> step.ret != 0 && step.ret != ECGEOF && reports(describe, step.ret, e)
}

/// Iteration over the mount points of all mounted controllers.
pub struct CGroupMountIter {
    handle_open: bool,
}

impl CGroupMountIter {
    /// Whether libcgroup holds an open iteration handle for this iteration.
    pub closed spec fn is_open(&self) -> bool {
        self.handle_open
    }

    /// An iteration that has not started: no handle is open yet. libcgroup
    /// must have been initialised first.
    pub fn new(init: &InitState) -> (it: CGroupMountIter)
        requires
            init.is_initialized(),
        ensures
            !it.is_open(),
    {
        CGroupMountIter { handle_open: false }
    }

    /// The libcgroup function that the next step calls: `_begin` while no
    /// handle is open, `_next` once one is.
    pub fn call(&self) -> (c: IterCall)
        ensures
            c == (if self.is_open() { IterCall::Next } else { IterCall::Begin }),
    {
        if self.handle_open {
            IterCall::Next
        } else {
            IterCall::Begin
        }
    }

    /// Takes in the answer to the call that `call` named and yields the next
    /// item: nothing once libcgroup reports the end (`ECGEOF`), the mount
    /// point it read when it reports success, and an error carrying the code
    /// and its description otherwise.
    pub fn next<F: Fn(i32) -> String>(&mut self, step: MountStep, describe: F) -> (r: Option<
        CGroupResult<CGroupMount>,
    >)
        requires
            step.ret != ECGEOF && step.ret != 0 ==> describe.requires((step.ret,)),
        ensures
            final(self).is_open() == step.handle_open,
            yields_mount(step, describe, r),
    {
        self.handle_open = step.handle_open;
        if step.ret == ECGEOF {
            return None;
        }
        let mount = CGroupMount::from_mount_point(step.mount);
        Some(check_return(step.ret, mount, describe))
    }
}

/// A new iteration over the mount points of all mounted controllers, once
/// libcgroup has been initialised.
pub fn cgroup_mount_points_iter(init: &InitState) -> (it: CGroupMountIter)
    requires
        init.is_initialized(),
    ensures
        !it.is_open(),
{
    CGroupMountIter::new(init)
}

/// The mount points that the items `items` of an iteration amount to, read
/// in order: those read before the end of the iteration, or the first
/// error met before it.
pub open spec fn mount_points_of(items: Seq<Option<CGroupResult<CGroupMount>>>) -> CGroupResult<
    Seq<CGroupMount>,
>
    decreases items.len(),
{
    if items.len() == 0 {
        Ok(Seq::empty())
    } else {
        match items[0] {
            None => Ok(Seq::empty()),
            Some(Err(e)) => Err(e),
            Some(Ok(m)) => match mount_points_of(items.drop_first()) {
                Ok(ms) => Ok(seq![m] + ms),
                Err(e) => Err(e),
            },
        }
    }
}

/// `r` with the mount points `ms` put before its own, when it is a success.
pub open spec fn prepend_mounts(ms: Seq<CGroupMount>, r: CGroupResult<Seq<CGroupMount>>) -> CGroupResult<Seq<CGroupMount>> {
    match r {
        Ok(rest) => Ok(ms + rest),
        Err(e) => Err(e),
    }
}

/// The items that an iteration yields for the mount points `ms`, read
/// without error.
pub open spec fn read_items(ms: Seq<CGroupMount>) -> Seq<Option<CGroupResult<CGroupMount>>> {
    ms.map_values(|m: CGroupMount| Some(Ok::<CGroupMount, CGroupError>(m)))
}

/// An iteration that reads the mount points `ms` and then ends gives
/// exactly `ms`, in order; whatever it would yield after its end is
/// ignored.
pub proof fn lemma_mount_points_in_order(ms: Seq<CGroupMount>, more: Seq<Option<CGroupResult<CGroupMount>>>)
    ensures
        mount_points_of(read_items(ms) + seq![None] + more) == Ok::<Seq<CGroupMount>, CGroupError>(ms),
    decreases ms.len(),
{
    let items = read_items(ms) + seq![None] + more;
    if ms.len() == 0 {
        assert(items[0] is None);
        assert(ms =~= Seq::<CGroupMount>::empty());
    } else {
        assert(items[0] == Some(Ok::<CGroupMount, CGroupError>(ms[0])));
        assert(items.drop_first() =~= read_items(ms.drop_first()) + seq![None] + more);
        lemma_mount_points_in_order(ms.drop_first(), more);
        assert(seq![ms[0]] + ms.drop_first() =~= ms);
    }
}

/// An iteration that reads the mount points `ms` and then fails with `e`
/// gives `e`: the first error wins, and whatever follows it is ignored.
pub proof fn lemma_mount_points_first_error(ms: Seq<CGroupMount>, e: CGroupError, more: Seq<Option<CGroupResult<CGroupMount>>>)
    ensures
        mount_points_of(read_items(ms) + seq![Some(Err::<CGroupMount, CGroupError>(e))] + more)
            == Err::<Seq<CGroupMount>, CGroupError>(e),
    decreases ms.len(),
{
    let items = read_items(ms) + seq![Some(Err::<CGroupMount, CGroupError>(e))] + more;
    if ms.len() == 0 {
        assert(items[0] == Some(Err::<CGroupMount, CGroupError>(e)));
    } else {
        assert(items[0] == Some(Ok::<CGroupMount, CGroupError>(ms[0])));
        assert(items.drop_first() =~= read_items(ms.drop_first()) + seq![Some(Err::<CGroupMount, CGroupError>(e))] + more);
        lemma_mount_points_first_error(ms.drop_first(), e, more);
    }
}

fn copy_mount(m: &CGroupMount) -> (c: CGroupMount)
    ensures
        c == *m,
{
    CGroupMount { controller_name: m.controller_name.clone(), path: m.path.clone() }
}

fn copy_error(e: &CGroupError) -> (c: CGroupError)
    ensures
        c == *e,
{
    CGroupError { code: e.code, description: e.description.clone() }
}

/// Collects the mount points of all mounted controllers from the items
/// that the iteration yielded, in order: all of them when the iteration
/// ends (or the items run out) without error, else the first error.
pub fn cgroup_mount_points(items: &Vec<Option<CGroupResult<CGroupMount>>>) -> (r: CGroupResult<
    Vec<CGroupMount>,
>)
    ensures
        match r {
            Ok(v) => mount_points_of(items@) == Ok::<Seq<CGroupMount>, CGroupError>(v@),
            Err(e) => mount_points_of(items@) == Err::<Seq<CGroupMount>, CGroupError>(e),
        },
{
    let mut mounts: Vec<CGroupMount> = Vec::new();
    let mut i: usize = 0;
    assert(items@.skip(0) =~= items@);
    proof {
        match mount_points_of(items@) {
            Ok(ms) => {
                assert(mounts@ + ms =~= ms);
            },
            Err(e) => {},
        }
    }
    while i < items.len()
        invariant
            i <= items.len(),
            mount_points_of(items@) == prepend_mounts(mounts@, mount_points_of(items@.skip(i as int))),
        decreases items.len() - i,
    {
        let ghost rest = items@.skip(i as int);
        assert(rest[0] == items@[i as int]);
        assert(rest.drop_first() =~= items@.skip(i + 1));
        match &items[i] {
            None => {
                assert(mounts@ + Seq::<CGroupMount>::empty() =~= mounts@);
                return Ok(mounts);
            },
            Some(Err(e)) => {
                return Err(copy_error(e));
            },
            Some(Ok(m)) => {
                let ghost before = mounts@;
                mounts.push(copy_mount(m));
                proof {
                    match mount_points_of(items@.skip(i + 1)) {
                        Ok(ms) => {
                            assert(before + (seq![*m] + ms) =~= mounts@ + ms);
                        },
                        Err(e) => {},
                    }
                }
            },
        }
        i = i + 1;
    }
    assert(items@.skip(i as int) =~= Seq::<Option<CGroupResult<CGroupMount>>>::empty());
    assert(mounts@ + Seq::<CGroupMount>::empty() =~= mounts@);
    Ok(mounts)
}

/// Whether the item `item` ends a collection of mount points: the end of
/// the iteration or an error.
pub open spec fn ends_collection(item: Option<CGroupResult<CGroupMount>>) -> bool {
    !(item matches Some(Ok(_)))
}

/// The items `items` are what a collection has taken in so far: every item
/// but the last is a mount point read without error.
pub open spec fn collecting(items: Seq<Option<CGroupResult<CGroupMount>>>) -> bool {
    forall|i: int| 0 <= i < items.len() - 1 ==> !ends_collection(#[trigger] items[i])
}

/// A collection that has taken in `items` is over: its last item ended it.
pub open spec fn collection_over(items: Seq<Option<CGroupResult<CGroupMount>>>) -> bool {
    items.len() > 0 && ends_collection(items.last())
}

/// What `collect::<Result<Vec<_>, _>>()` makes of the results `rs`, taken
/// in order: the first error among them, or, when there is none, all their
/// values in order.
pub open spec fn collect_results(rs: Seq<CGroupResult<CGroupMount>>) -> CGroupResult<Seq<CGroupMount>>
    decreases rs.len(),
{
    if rs.len() == 0 {
        Ok(Seq::empty())
    } else {
        match rs[0] {
            Err(e) => Err(e),
            Ok(m) => match collect_results(rs.drop_first()) {
                Ok(ms) => Ok(seq![m] + ms),
                Err(e) => Err(e),
            },
        }
    }
}

/// Collecting the mount points of an iteration whose results before its
/// end are `rs` gives what `collect::<Result<Vec<_>, _>>()` gives for `rs`:
/// the first error, or all the mount points in order; whatever the
/// iteration would yield after its end is ignored.
pub proof fn lemma_mount_points_collect(rs: Seq<CGroupResult<CGroupMount>>, more: Seq<Option<CGroupResult<CGroupMount>>>)
    ensures
        mount_points_of(rs.map_values(|r: CGroupResult<CGroupMount>| Some(r)) + seq![None] + more) == collect_results(rs),
    decreases rs.len(),
{
    let items = rs.map_values(|r: CGroupResult<CGroupMount>| Some(r)) + seq![None] + more;
    if rs.len() == 0 {
        assert(items[0] is None);
    } else {
        let rest = rs.drop_first();
        assert(items[0] == Some(rs[0]));
        assert(items.drop_first() =~= rest.map_values(|r: CGroupResult<CGroupMount>| Some(r)) + seq![None] + more);
        lemma_mount_points_collect(rest, more);
    }
}

/// The collection of the mount points of all mounted controllers: it
/// drives a mount-point iteration, takes in what each step yields, and
/// stops at the end of the iteration or at the first error.
pub struct MountPointsCollection {
    iter: CGroupMountIter,
    items: Vec<Option<CGroupResult<CGroupMount>>>,
}

impl MountPointsCollection {
    /// Whether the iteration's handle is open.
    pub closed spec fn is_open(&self) -> bool {
        self.iter.is_open()
    }

    /// The items that the iteration has yielded so far, in order.
    pub closed spec fn items(&self) -> Seq<Option<CGroupResult<CGroupMount>>> {
        self.items@
    }

    /// A collection that has taken in nothing yet, over an iteration that
    /// has not started; libcgroup must have been initialised first.
    pub fn new(init: &InitState) -> (c: MountPointsCollection)
        requires
            init.is_initialized(),
        ensures
            !c.is_open(),
            c.items() == Seq::<Option<CGroupResult<CGroupMount>>>::empty(),
            collecting(c.items()),
    {
        MountPointsCollection { iter: cgroup_mount_points_iter(init), items: Vec::new() }
    }

    /// The call that the next step makes, or none once the collection is
    /// over (the last item was the end of the iteration or an error).
    pub fn call(&self) -> (c: Option<IterCall>)
        ensures
            c is None <==> collection_over(self.items()),
            c matches Some(call) ==> call == (if self.is_open() { IterCall::Next } else { IterCall::Begin }),
    {
        let n = self.items.len();
        if n > 0 {
            match &self.items[n - 1] {
                Some(Ok(_)) => {},
                _ => {
                    return None;
                },
            }
        }
        Some(self.iter.call())
    }

    /// Takes in the answer to the call that `call` named: the iteration
    /// steps, and what it yields is added to the items.
    pub fn next<F: Fn(i32) -> String>(&mut self, step: MountStep, describe: F)
        requires
            !collection_over(old(self).items()),
            step.ret != ECGEOF && step.ret != 0 ==> describe.requires((step.ret,)),
        ensures
            final(self).is_open() == step.handle_open,
            final(self).items().len() == old(self).items().len() + 1,
            final(self).items().drop_last() == old(self).items(),
            yields_mount(step, describe, final(self).items().last()),
            collecting(old(self).items()) ==> collecting(final(self).items()),
    {
        let item = self.iter.next(step, describe);
        self.items.push(item);
        assert(self.items@.drop_last() =~= old(self).items@);
        proof {
            if collecting(old(self).items@) {
                lemma_collection_items(old(self).items@, item);
            }
        }
    }

    /// The outcome of the collection: the mount points read before the end
    /// of the iteration, in order, or the first error.
    pub fn finish(&self) -> (r: CGroupResult<Vec<CGroupMount>>)
        ensures
            match r {
                Ok(v) => mount_points_of(self.items()) == Ok::<Seq<CGroupMount>, CGroupError>(v@),
                Err(e) => mount_points_of(self.items()) == Err::<Seq<CGroupMount>, CGroupError>(e),
            },
    {
        cgroup_mount_points(&self.items)
    }
}

/// Once a collection is over after taking in `n` items, the first `n - 1`
/// were mount points read without error and were the only steps before
/// the last: its outcome is those `n - 1` mount points in order when the
/// last item is the end of the iteration, and the error when it is one.
pub proof fn lemma_collection_outcome(items: Seq<Option<CGroupResult<CGroupMount>>>)
    requires
        collecting(items),
        collection_over(items),
    ensures
        items.last() is None ==> mount_points_of(items) == Ok::<Seq<CGroupMount>, CGroupError>(
            items.drop_last().map_values(|it: Option<CGroupResult<CGroupMount>>| it->Some_0->Ok_0),
        ),
        items.last() matches Some(Err(e)) ==> mount_points_of(items) == Err::<Seq<CGroupMount>, CGroupError>(e),
{
    let ms = items.drop_last().map_values(|it: Option<CGroupResult<CGroupMount>>| it->Some_0->Ok_0);
    assert forall|i: int| 0 <= i < items.len() - 1 implies items.drop_last()[i] == read_items(ms)[i] by {
        assert(!ends_collection(items[i]));
        assert(items.drop_last()[i] == items[i]);
    }
    assert(items.drop_last() =~= read_items(ms));
    let more = Seq::<Option<CGroupResult<CGroupMount>>>::empty();
    assert(items =~= read_items(ms) + seq![items.last()] + more);
    match items.last() {
        None => {
            lemma_mount_points_in_order(ms, more);
        },
        Some(Err(e)) => {
            lemma_mount_points_first_error(ms, e, more);
        },
        Some(Ok(_)) => {},
    }
}

/// Items taken in by a collection are `collecting` (all but the last read
/// without error), and a step is only taken while the collection is not
/// over; so every item before the last is a mount point read without
/// error.
pub proof fn lemma_collection_items(items: Seq<Option<CGroupResult<CGroupMount>>>, item: Option<CGroupResult<CGroupMount>>)
    requires
        collecting(items),
        !collection_over(items),
    ensures
        collecting(items.push(item)),
{
    assert forall|i: int| 0 <= i < items.push(item).len() - 1 implies !ends_collection(#[trigger] items.push(item)[i]) by {
        assert(items.push(item)[i] == items[i]);
        if i < items.len() - 1 {
        } else {
            assert(items[i] == items.last());
        }
    }
}

/// An entry as `cgroup_walk_tree_begin` / `_next` describe it: its kind,
/// its name, the path of its parent and its full path (each as the bytes of
/// a C string), and its depth below the walk's base.
#[allow(non_camel_case_types)]
#[derive(Debug)]
pub struct cgroup_file_info {
    pub file_type: cgroup_file_type,
    pub path: Vec<u8>,
    pub parent: Vec<u8>,
    pub full_path: Vec<u8>,
    pub depth: i16,
}

impl Clone for cgroup_file_info {
    /// A copy of the record: the same kind, name bytes and depth.
    fn clone(&self) -> (c: cgroup_file_info)
        ensures
            c.file_type == self.file_type,
            c.path@ == self.path@,
            c.parent@ == self.parent@,
            c.full_path@ == self.full_path@,
            c.depth == self.depth,
    {
        cgroup_file_info {
            file_type: self.file_type,
            path: copy_bytes(&self.path),
            parent: copy_bytes(&self.parent),
            full_path: copy_bytes(&self.full_path),
            depth: self.depth,
        }
    }
}

impl Default for cgroup_file_info {
    /// The zeroed record: the first kind (a file), no names, depth 0.
    fn default() -> (cgf: cgroup_file_info)
        ensures
            cgf.file_type == cgroup_file_type::CGROUP_FILE_TYPE_FILE,
            cgf.path@ == Seq::<u8>::empty(),
            cgf.parent@ == Seq::<u8>::empty(),
            cgf.full_path@ == Seq::<u8>::empty(),
            cgf.depth == 0,
    {
        cgroup_file_info {
            file_type: cgroup_file_type::CGROUP_FILE_TYPE_FILE,
            path: Vec::new(),
            parent: Vec::new(),
            full_path: Vec::new(),
            depth: 0,
        }
    }
}

/// Names and depth of an entry met during a tree walk.
#[derive(Debug)]
pub struct CGroupFileInfo {
    pub path: String,
    pub parent: String,
    pub full_path: String,
    pub depth: i16,
}

/// An entry met during a tree walk, by kind.
#[derive(Debug)]
pub enum CGroupFile {
    File(CGroupFileInfo),
    Dir(CGroupFileInfo),
    Other(CGroupFileInfo),
}

impl CGroupFile {
    /// The names and depth of the entry, whatever its kind.
    pub open spec fn entry(self) -> CGroupFileInfo {
        match self {
            CGroupFile::File(info) => info,
            CGroupFile::Dir(info) => info,
            CGroupFile::Other(info) => info,
        }
    }

    /// The kind of the entry.
    pub open spec fn kind(self) -> cgroup_file_type {
        match self {
            CGroupFile::File(_) => cgroup_file_type::CGROUP_FILE_TYPE_FILE,
            CGroupFile::Dir(_) => cgroup_file_type::CGROUP_FILE_TYPE_DIR,
            CGroupFile::Other(_) => cgroup_file_type::CGROUP_FILE_TYPE_OTHER,
        }
    }

    /// Reads an entry out of what libcgroup filled in: the variant follows
    /// its kind, the three names are its C strings read as text and the
    /// depth is kept.
    pub fn from_file_info(cgf: cgroup_file_info) -> (f: CGroupFile)
        ensures
            file_read_from(f, cgf),
    {
        let info = CGroupFileInfo {
            path: c_string_lossy(cgf.path.as_slice()),
            parent: c_string_lossy(cgf.parent.as_slice()),
            full_path: c_string_lossy(cgf.full_path.as_slice()),
            depth: cgf.depth,
        };
        match cgf.file_type {
            cgroup_file_type::CGROUP_FILE_TYPE_FILE => CGroupFile::File(info),
            cgroup_file_type::CGROUP_FILE_TYPE_DIR => CGroupFile::Dir(info),
            cgroup_file_type::CGROUP_FILE_TYPE_OTHER => CGroupFile::Other(info),
        }
    }
}

impl From<cgroup_file_info> for CGroupFile {
    /// Reads an entry out of what libcgroup filled in, as `from_file_info`
    /// does.
    fn from(cgf: cgroup_file_info) -> (f: CGroupFile)
        ensures
            file_read_from(f, cgf),
    {
        CGroupFile::from_file_info(cgf)
    }
}

/// `From` on entries read through the trait: the strings of the result are
/// fixed by their text only, which names no single value, so the trait
/// states no spec result; the impl's own `ensures` states it.
impl vstd::std_specs::convert::FromSpecImpl<cgroup_file_info> for CGroupFile {
    open spec fn obeys_from_spec() -> bool {
        false
    }

    open spec fn from_spec(cgf: cgroup_file_info) -> CGroupFile {
        choose|f: CGroupFile| file_read_from(f, cgf)
    }
}

/// `f` is the entry that `cgf` describes.
pub open spec fn file_read_from(f: CGroupFile, cgf: cgroup_file_info) -> bool {
    &&& f.kind() == cgf.file_type
    &&& read_c_string(f.entry().path@, cgf.path@)
    &&& read_c_string(f.entry().parent@, cgf.parent@)
    &&& read_c_string(f.entry().full_path@, cgf.full_path@)
    &&& f.entry().depth == cgf.depth
}

/// The call that the next step of a tree walk makes, with its arguments:
/// `cgroup_walk_tree_begin` with the controller and the base path (each as
/// the bytes of a C string) and the depth, or `cgroup_walk_tree_next` with
/// the depth and the base level that the begin call reported.
#[derive(Debug)]
pub enum WalkCall {
    Begin { controller_name: Vec<u8>, base_path: Vec<u8>, depth: i32 },
    Next { depth: i32, base_level: i32 },
}

/// What libcgroup answered to one step of a tree walk: the return code,
/// whether the walk handle is open afterwards, the base level (which only a
/// begin call reports) and the entry it filled in.
pub struct WalkStep {
    pub ret: i32,
    pub handle_open: bool,
    pub base_level: i32,
    pub info: cgroup_file_info,
}

/// The state of a tree walk: whether its handle is open, the base level
/// that its begin call reported, and the options it was made with.
pub struct WalkState {
    pub open: bool,
    pub base_level: i32,
    pub controller_name: Seq<char>,
    pub base_path: Seq<char>,
    pub depth: i32,
}

impl WalkState {
    /// The state after a step whose answer left the handle open or not and
    /// reported `base_level`; only a begin step (no handle open yet) takes
    /// the reported base level.
    pub open spec fn after_step(self, handle_open: bool, base_level: i32) -> WalkState {
        WalkState {
            open: handle_open,
            base_level: if self.open { self.base_level } else { base_level },
            ..self
        }
    }

    /// The state after the steps `steps`, each given by whether it left the
    /// handle open and the base level it reported.
    pub open spec fn after_steps(self, steps: Seq<(bool, i32)>) -> WalkState
        decreases steps.len(),
    {
        if steps.len() == 0 {
            self
        } else {
            self.after_step(steps[0].0, steps[0].1).after_steps(steps.drop_first())
        }
    }
}

/// A walk over the groups of one controller's hierarchy, from a base path
/// down to a depth.
#[derive(Debug)]
pub struct CGroupWalkIter {
    handle_open: bool,
    base_level: i32,
    pub controller_name: String,
    pub base_path: String,
    pub depth: i32,
}

impl View for CGroupWalkIter {
    type V = WalkState;

    closed spec fn view(&self) -> WalkState {
        WalkState {
            open: self.handle_open,
            base_level: self.base_level,
            controller_name: self.controller_name@,
            base_path: self.base_path@,
            depth: self.depth,
        }
    }
}

impl CGroupWalkIter {
    /// A walk over the hierarchy of `controller_name` from its root, to any
    /// depth (depth 0), once libcgroup has been initialised.
    pub fn new(controller_name: String, init: &InitState) -> (it: CGroupWalkIter)
        requires
            init.is_initialized(),
        ensures
            !it@.open,
            it@.controller_name == controller_name@,
            it@.base_path == Seq::<char>::empty(),
            it@.depth == 0,
    {
        CGroupWalkIter {
            handle_open: false,
            base_level: 0,
            controller_name,
            base_path: String::new(),
            depth: 0,
        }
    }

    /// A walk over the hierarchy of `controller_name` from `base_path`,
    /// down to `depth`, once libcgroup has been initialised.
    pub fn new_with_options(
        controller_name: String,
        base_path: String,
        depth: i32,
        init: &InitState,
    ) -> (it: CGroupWalkIter)
        requires
            init.is_initialized(),
        ensures
            !it@.open,
            it@.controller_name == controller_name@,
            it@.base_path == base_path@,
            it@.depth == depth,
    {
        CGroupWalkIter { handle_open: false, base_level: 0, controller_name, base_path, depth }
    }

    /// The call that the next step makes: begin, with the walk's
    /// controller and base path as C strings and its depth, while no handle
    /// is open; next, with the depth and the reported base level, once one
    /// is. For a begin call neither name may hold U+0000, which a C string
    /// cannot carry.
    pub fn call(&self) -> (c: WalkCall)
        requires
            !self@.open ==> !self@.controller_name.contains('\0'),
            !self@.open ==> !self@.base_path.contains('\0'),
        ensures
            match c {
                WalkCall::Begin { controller_name, base_path, depth } => {
                    &&& !self@.open
                    &&& controller_name@ == encode_utf8(self@.controller_name) + seq![0u8]
                    &&& base_path@ == encode_utf8(self@.base_path) + seq![0u8]
                    &&& depth == self@.depth
                },
                WalkCall::Next { depth, base_level } => {
                    &&& self@.open
                    &&& depth == self@.depth
                    &&& base_level == self@.base_level
                },
            },
    {
        if self.handle_open {
            WalkCall::Next { depth: self.depth, base_level: self.base_level }
        } else {
            let controller_name = c_string_of(self.controller_name.as_str()).unwrap();
            let base_path = c_string_of(self.base_path.as_str()).unwrap();
            WalkCall::Begin { controller_name, base_path, depth: self.depth }
        }
    }

    /// Takes in the answer to the call that `call` named and yields the next
    /// entry: nothing once libcgroup reports the end (`ECGEOF`), the entry
    /// it read when it reports success, and an error carrying the code and
    /// its description otherwise.
    pub fn next<F: Fn(i32) -> String>(&mut self, step: WalkStep, describe: F) -> (r: Option<
        CGroupResult<CGroupFile>,
    >)
        requires
            step.ret != ECGEOF && step.ret != 0 ==> describe.requires((step.ret,)),
        ensures
            final(self)@ == old(self)@.after_step(step.handle_open, step.base_level),
            r is None <==> step.ret == ECGEOF,
            r matches Some(Ok(f)) ==> step.ret == 0 && file_read_from(f, step.info),
            r matches Some(Err(e)) ==> step.ret != 0 && step.ret != ECGEOF && reports(
                describe,
                step.ret,
                e,
            ),
    {
        if !self.handle_open {
            self.base_level = step.base_level;
        }
        self.handle_open = step.handle_open;
        if step.ret == ECGEOF {
            return None;
        }
        let file = CGroupFile::from_file_info(step.info);
        Some(check_return(step.ret, file, describe))
    }
}

/// A walk over the whole hierarchy of `controller_name`, once libcgroup
/// has been initialised.
pub fn cgroup_walk_tree_iter(controller_name: String, init: &InitState) -> (it: CGroupWalkIter)
    requires
        init.is_initialized(),
    ensures
        !it@.open,
        it@.controller_name == controller_name@,
        it@.base_path == Seq::<char>::empty(),
        it@.depth == 0,
{
    CGroupWalkIter::new(controller_name, init)
}

/// A walk never changes its controller, base path or depth; and once its
/// handle is open, steps that keep it open keep the base level that the
/// begin call reported, so every further call is a next call with that
/// depth and base level.
pub proof fn lemma_walk_keeps_options(st: WalkState, steps: Seq<(bool, i32)>)
    ensures
        st.after_steps(steps).controller_name == st.controller_name,
        st.after_steps(steps).base_path == st.base_path,
        st.after_steps(steps).depth == st.depth,
        st.open && (forall|i: int| 0 <= i < steps.len() ==> #[trigger] steps[i].0) ==> {
            &&& st.after_steps(steps).open
            &&& st.after_steps(steps).base_level == st.base_level
        },
    decreases steps.len(),
{
    if steps.len() > 0 {
        let next = st.after_step(steps[0].0, steps[0].1);
        lemma_walk_keeps_options(next, steps.drop_first());
        if st.open && (forall|i: int| 0 <= i < steps.len() ==> #[trigger] steps[i].0) {
            assert(steps[0].0);
            assert forall|i: int| 0 <= i < steps.drop_first().len() implies #[trigger] steps.drop_first()[i].0 by {
                assert(steps.drop_first()[i] == steps[i + 1]);
                assert(steps[i + 1].0);
            }
        }
    }
}

/// A mount point's controller name and path are the lossy text of exactly
/// the bytes before the first NUL byte of the name and path buffers: no
/// other byte ends or changes them, and nothing after the NUL counts.
pub proof fn lemma_mount_read_whole(
    m: CGroupMount,
    mp: cgroup_mount_point,
    name: Seq<u8>,
    name_rest: Seq<u8>,
    path: Seq<u8>,
    path_rest: Seq<u8>,
)
    requires
        nul_free(name),
        nul_free(path),
        mp.name@ == name + seq![0u8] + name_rest,
        mp.path@ == path + seq![0u8] + path_rest,
        mount_read_from(m, mp),
    ensures
        m.controller_name@ == utf8_lossy(name),
        m.path@ == utf8_lossy(path),
{
    lemma_read_c_string_prefix(m.controller_name@, name, name_rest);
    lemma_read_c_string_prefix(m.path@, path, path_rest);
}

/// An entry read from a record is the variant of the record's kind, and,
/// whatever the kind, its name, parent and full path are the lossy text of
/// exactly the bytes before the first NUL byte of the record's own `path`,
/// `parent` and `full_path` buffers, and its depth is the record's.
pub proof fn lemma_file_read_whole(
    f: CGroupFile,
    cgf: cgroup_file_info,
    path: Seq<u8>,
    parent: Seq<u8>,
    full_path: Seq<u8>,
    rest: Seq<u8>,
)
    requires
        nul_free(path),
        nul_free(parent),
        nul_free(full_path),
        cgf.path@ == path + seq![0u8] + rest,
        cgf.parent@ == parent + seq![0u8] + rest,
        cgf.full_path@ == full_path + seq![0u8] + rest,
        file_read_from(f, cgf),
    ensures
        match f {
            CGroupFile::File(i) => cgf.file_type == cgroup_file_type::CGROUP_FILE_TYPE_FILE
                && i.path@ == utf8_lossy(path) && i.parent@ == utf8_lossy(parent)
                && i.full_path@ == utf8_lossy(full_path) && i.depth == cgf.depth,
            CGroupFile::Dir(i) => cgf.file_type == cgroup_file_type::CGROUP_FILE_TYPE_DIR
                && i.path@ == utf8_lossy(path) && i.parent@ == utf8_lossy(parent)
                && i.full_path@ == utf8_lossy(full_path) && i.depth == cgf.depth,
            CGroupFile::Other(i) => cgf.file_type == cgroup_file_type::CGROUP_FILE_TYPE_OTHER
                && i.path@ == utf8_lossy(path) && i.parent@ == utf8_lossy(parent)
                && i.full_path@ == utf8_lossy(full_path) && i.depth == cgf.depth,
        },
{
    lemma_read_c_string_prefix(f.entry().path@, path, rest);
    lemma_read_c_string_prefix(f.entry().parent@, parent, rest);
    lemma_read_c_string_prefix(f.entry().full_path@, full_path, rest);
}

/// A collection is over exactly when its last item is the end of the
/// iteration or an error: while the last item is a mount point read
/// without error, whatever it holds, `call` names another libcgroup call.
pub proof fn lemma_collection_over_exactly(items: Seq<Option<CGroupResult<CGroupMount>>>)
    ensures
        collection_over(items) <==> (items.len() > 0 && match items[items.len() - 1] {
            Some(Ok(_)) => false,
            _ => true,
        }),
{
}

/// Mount points read without error all count, in order, whether or not
/// the end of the iteration follows them.
pub proof fn lemma_mount_points_all_read(ms: Seq<CGroupMount>)
    ensures
        mount_points_of(ms.map_values(|m: CGroupMount| Some(Ok::<CGroupMount, CGroupError>(m))))
            == Ok::<Seq<CGroupMount>, CGroupError>(ms),
    decreases ms.len(),
{
    let items = ms.map_values(|m: CGroupMount| Some(Ok::<CGroupMount, CGroupError>(m)));
    if ms.len() == 0 {
        assert(ms =~= Seq::<CGroupMount>::empty());
    } else {
        assert(items[0] == Some(Ok::<CGroupMount, CGroupError>(ms[0])));
        assert(items.drop_first() =~= ms.drop_first().map_values(|m: CGroupMount| Some(Ok::<CGroupMount, CGroupError>(m))));
        lemma_mount_points_all_read(ms.drop_first());
        assert(seq![ms[0]] + ms.drop_first() =~= ms);
    }
}

} // verus!
