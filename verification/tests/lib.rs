use libcgroup::cstr::{c_string_length, c_string_lossy, c_string_of};
use libcgroup::group::{CGroup, IGNORE_OWNERSHIP};
use libcgroup::init::InitState;
use libcgroup::iter::{
    cgroup_file_info, cgroup_mount_point, cgroup_mount_points, cgroup_mount_points_iter,
    cgroup_walk_tree_iter, CGroupFile, CGroupMount, CGroupMountIter, CGroupWalkIter, IterCall,
    MountPointsCollection, MountStep, WalkCall, WalkStep,
};
use libcgroup::result::{check_return, CGroupError, ECGEOF, ECGFAIL};
use libcgroup::sys::{
    cgroup_file_type, cgroup_stat, controller_data, group_walk_type, new_controller_data,
    CG_VALUE_MAX, FILENAME_MAX,
};

/// An initialisation state after libcgroup's initialisation has run.
fn ready() -> InitState {
    let mut state = InitState::new();
    assert!(state.init());
    state
}

fn describe(code: i32) -> String {
    format!("libcgroup error {}", code)
}

/// A buffer of `FILENAME_MAX` bytes holding `text` as a C string.
fn c_buffer(text: &str) -> Vec<u8> {
    let mut buf = vec![0u8; FILENAME_MAX];
    buf[..text.len()].copy_from_slice(text.as_bytes());
    buf
}

fn mount_point(name: &str, path: &str) -> cgroup_mount_point {
    cgroup_mount_point { name: c_buffer(name), path: c_buffer(path) }
}

fn file_info(kind: cgroup_file_type, path: &str, depth: i16) -> cgroup_file_info {
    cgroup_file_info {
        file_type: kind,
        path: c_string_of(path).unwrap(),
        parent: c_string_of("/sys/fs/cgroup/memory").unwrap(),
        full_path: c_string_of(&format!("/sys/fs/cgroup/memory/{}", path)).unwrap(),
        depth,
    }
}

fn mount(name: &str, path: &str) -> CGroupMount {
    CGroupMount { controller_name: name.to_string(), path: path.to_string() }
}

#[test]
fn lib_test_init() {
    let mut state = InitState::new();
    assert!(state.init());
}

#[test]
fn test_create_cgroup() {
    let cg = match CGroup::new("jimmi".to_string(), true, describe, &ready()) {
        Ok(cgroup) => cgroup,
        Err(err) => panic!("Should not have returned error: {}", err.description),
    };

    match cg.add_controller("memory", true, describe) {
        Ok(_) => println!("Working!"),
        Err(err) => panic!("{}", err.description),
    };

    match cg.create(0, describe) {
        Ok(_) => println!("Working!"),
        Err(err) => panic!("{}", err.description),
    };
}

#[test]
fn init_runs_only_once() {
    let mut state = InitState::new();
    assert!(state.init());
    assert!(!state.init());
    assert!(!state.init());
}

#[test]
fn check_return_success_hands_back_value() {
    let r = check_return(0, 42u32, describe);
    assert_eq!(r.unwrap(), 42);
}

#[test]
fn check_return_failure_carries_code_and_description() {
    let r = check_return(ECGFAIL, 42u32, describe);
    let e = r.unwrap_err();
    assert_eq!(e.code, 50013);
    assert_eq!(e.description, "libcgroup error 50013");
    let e = check_return(-1, (), describe).unwrap_err();
    assert_eq!(e.code, -1);
}

#[test]
fn c_string_stops_at_first_nul() {
    assert_eq!(c_string_length(b"memory\0cpu\0"), 6);
    assert_eq!(c_string_lossy(b"memory\0cpu\0"), "memory");
    assert_eq!(c_string_lossy(b"\0memory"), "");
}

#[test]
fn c_string_without_nul_is_read_whole() {
    assert_eq!(c_string_length(b"cpuset"), 6);
    assert_eq!(c_string_lossy(b"cpuset"), "cpuset");
    assert_eq!(c_string_lossy(b""), "");
}

#[test]
fn c_string_invalid_utf8_is_replaced() {
    assert_eq!(c_string_lossy(b"ab\xffcd\0ef"), "ab\u{FFFD}cd");
    assert_eq!(c_string_lossy("gr\u{fc}n\0".as_bytes()), "gr\u{fc}n");
}

#[test]
fn c_string_of_appends_nul() {
    assert_eq!(c_string_of("memory").unwrap(), b"memory\0".to_vec());
    assert_eq!(c_string_of("").unwrap(), vec![0u8]);
    assert_eq!(c_string_of("\u{e9}").unwrap(), vec![0xc3, 0xa9, 0]);
}

#[test]
fn c_string_of_refuses_nul() {
    assert!(c_string_of("mem\0ory").is_none());
    assert!(c_string_of("\0").is_none());
}

#[test]
fn c_string_round_trip() {
    for text in ["jimmi", "", "/sys/fs/cgroup/memory", "gr\u{fc}n \u{1F600}"] {
        let mut bytes = c_string_of(text).unwrap();
        bytes.extend_from_slice(b"garbage");
        assert_eq!(c_string_lossy(&bytes), text);
    }
}

#[test]
fn controller_data_is_zeroed() {
    let d = new_controller_data();
    assert_eq!(d.name.len(), 4096);
    assert!(d.name.iter().all(|b| *b == 0));
    assert_eq!((d.hierarchy, d.num_cgroups, d.enabled), (0, 0, 0));
    let d: controller_data = Default::default();
    assert_eq!(d.name.len(), 4096);
    assert_eq!(c_string_lossy(&d.name), "");
}

#[test]
fn walk_type_flags() {
    assert_eq!(group_walk_type::CGROUP_WALK_TYPE_PRE_DIR.flag(), 1);
    assert_eq!(group_walk_type::CGROUP_WALK_TYPE_POST_DIR.flag(), 2);
}

#[test]
fn mount_point_is_read_from_buffers() {
    let m = CGroupMount::from_mount_point(mount_point("memory", "/sys/fs/cgroup/memory"));
    assert_eq!(m.controller_name, "memory");
    assert_eq!(m.path, "/sys/fs/cgroup/memory");
}

#[test]
fn mount_iter_begins_then_reads_next() {
    let mut it: CGroupMountIter = cgroup_mount_points_iter(&ready());
    assert_eq!(it.call(), IterCall::Begin);
    let step = MountStep { ret: 0, handle_open: true, mount: mount_point("cpu", "/cg/cpu") };
    match it.next(step, describe) {
        Some(Ok(m)) => {
            assert_eq!(m.controller_name, "cpu");
            assert_eq!(m.path, "/cg/cpu");
        }
        other => panic!("unexpected {:?}", other),
    }
    assert_eq!(it.call(), IterCall::Next);
}

#[test]
fn mount_iter_end_is_none() {
    let mut it = CGroupMountIter::new(&ready());
    let step = MountStep { ret: ECGEOF, handle_open: true, mount: mount_point("", "") };
    assert!(it.next(step, describe).is_none());
}

#[test]
fn mount_iter_failed_begin_begins_again() {
    let mut it = CGroupMountIter::new(&ready());
    let step = MountStep { ret: 50016, handle_open: false, mount: mount_point("", "") };
    match it.next(step, describe) {
        Some(Err(e)) => {
            assert_eq!(e.code, 50016);
            assert_eq!(e.description, "libcgroup error 50016");
        }
        other => panic!("unexpected {:?}", other),
    }
    assert_eq!(it.call(), IterCall::Begin);
}

#[test]
fn mount_points_collected_in_order() {
    let items = vec![
        Some(Ok(mount("cpu", "/cg/cpu"))),
        Some(Ok(mount("memory", "/cg/memory"))),
        None,
    ];
    let ms = cgroup_mount_points(&items).unwrap();
    assert_eq!(ms.len(), 2);
    assert_eq!(ms[0].controller_name, "cpu");
    assert_eq!(ms[1].controller_name, "memory");
    assert_eq!(ms[1].path, "/cg/memory");
}

#[test]
fn mount_points_first_error_wins() {
    let items = vec![
        Some(Ok(mount("cpu", "/cg/cpu"))),
        Some(Err(CGroupError { code: 50001, description: "first".to_string() })),
        Some(Err(CGroupError { code: 50002, description: "second".to_string() })),
    ];
    let e = cgroup_mount_points(&items).unwrap_err();
    assert_eq!(e.code, 50001);
    assert_eq!(e.description, "first");
}

#[test]
fn mount_points_ignore_items_after_end() {
    let items = vec![
        Some(Ok(mount("cpu", "/cg/cpu"))),
        None,
        Some(Err(CGroupError { code: 50001, description: "late".to_string() })),
    ];
    let ms = cgroup_mount_points(&items).unwrap();
    assert_eq!(ms.len(), 1);
    assert!(cgroup_mount_points(&vec![]).unwrap().is_empty());
    assert!(cgroup_mount_points(&vec![None]).unwrap().is_empty());
}

#[test]
fn file_kinds_map_to_variants() {
    let f = CGroupFile::from_file_info(file_info(cgroup_file_type::CGROUP_FILE_TYPE_FILE, "tasks", 1));
    match f {
        CGroupFile::File(info) => {
            assert_eq!(info.path, "tasks");
            assert_eq!(info.parent, "/sys/fs/cgroup/memory");
            assert_eq!(info.full_path, "/sys/fs/cgroup/memory/tasks");
            assert_eq!(info.depth, 1);
        }
        other => panic!("unexpected {:?}", other),
    }
    let f = CGroupFile::from_file_info(file_info(cgroup_file_type::CGROUP_FILE_TYPE_DIR, "jimmi", 2));
    assert!(matches!(f, CGroupFile::Dir(ref i) if i.depth == 2 && i.path == "jimmi"));
    let f = CGroupFile::from_file_info(file_info(cgroup_file_type::CGROUP_FILE_TYPE_OTHER, "x", 0));
    assert!(matches!(f, CGroupFile::Other(_)));
}

#[test]
fn walk_iter_defaults() {
    let it = cgroup_walk_tree_iter("memory".to_string(), &ready());
    assert_eq!(it.controller_name, "memory");
    assert_eq!(it.base_path, "");
    assert_eq!(it.depth, 0);
    let it = CGroupWalkIter::new("cpu".to_string(), &ready());
    assert_eq!(it.controller_name, "cpu");
    assert_eq!(it.base_path, "");
    assert_eq!(it.depth, 0);
}

#[test]
fn walk_iter_begin_then_next_with_base_level() {
    let mut it = CGroupWalkIter::new_with_options("memory".to_string(), "/jimmi".to_string(), 3, &ready());
    match it.call() {
        WalkCall::Begin { controller_name, base_path, depth } => {
            assert_eq!(controller_name, b"memory\0".to_vec());
            assert_eq!(base_path, b"/jimmi\0".to_vec());
            assert_eq!(depth, 3);
        }
        other => panic!("unexpected {:?}", other),
    }
    let step = WalkStep {
        ret: 0,
        handle_open: true,
        base_level: 7,
        info: file_info(cgroup_file_type::CGROUP_FILE_TYPE_DIR, "jimmi", 0),
    };
    assert!(matches!(it.next(step, describe), Some(Ok(CGroupFile::Dir(_)))));
    match it.call() {
        WalkCall::Next { depth, base_level } => {
            assert_eq!(depth, 3);
            assert_eq!(base_level, 7);
        }
        other => panic!("unexpected {:?}", other),
    }
    // A next step does not report a base level: the begun one stays.
    let step = WalkStep {
        ret: 0,
        handle_open: true,
        base_level: 99,
        info: file_info(cgroup_file_type::CGROUP_FILE_TYPE_FILE, "tasks", 1),
    };
    assert!(matches!(it.next(step, describe), Some(Ok(CGroupFile::File(_)))));
    assert!(matches!(it.call(), WalkCall::Next { depth: 3, base_level: 7 }));
    let step = WalkStep {
        ret: ECGEOF,
        handle_open: true,
        base_level: 0,
        info: file_info(cgroup_file_type::CGROUP_FILE_TYPE_FILE, "", 0),
    };
    assert!(it.next(step, describe).is_none());
}

#[test]
fn walk_iter_error_carries_code() {
    let mut it = CGroupWalkIter::new("nosuch".to_string(), &ready());
    let step = WalkStep {
        ret: 50001,
        handle_open: false,
        base_level: 0,
        info: file_info(cgroup_file_type::CGROUP_FILE_TYPE_OTHER, "", 0),
    };
    match it.next(step, describe) {
        Some(Err(e)) => assert_eq!(e.code, 50001),
        other => panic!("unexpected {:?}", other),
    }
    assert!(matches!(it.call(), WalkCall::Begin { .. }));
}

#[test]
fn cgroup_new_failure_is_ecgfail() {
    match CGroup::new("jimmi".to_string(), false, describe, &ready()) {
        Err(e) => {
            assert_eq!(e.code, ECGFAIL);
            assert_eq!(e.description, "libcgroup error 50013");
        }
        Ok(_) => panic!("allocation failure must be an error"),
    }
}

#[test]
fn cgroup_add_controller_and_create_failures() {
    let cg = CGroup::new("jimmi".to_string(), true, describe, &ready()).unwrap();
    assert_eq!(cg.add_controller("memory", false, describe).err().unwrap().code, ECGFAIL);
    let e = cg.create(50007, describe).err().unwrap();
    assert_eq!(e.code, 50007);
    assert!(cg.create(0, describe).is_ok());
}

#[test]
fn create_keeps_ownership() {
    assert_eq!(IGNORE_OWNERSHIP, 0);
}

#[test]
fn zeroed_records() {
    let mp = cgroup_mount_point::default();
    assert_eq!(mp.name.len(), FILENAME_MAX);
    assert_eq!(mp.path.len(), FILENAME_MAX);
    assert!(mp.name.iter().chain(mp.path.iter()).all(|b| *b == 0));
    let st = cgroup_stat::default();
    assert_eq!(st.name.len(), FILENAME_MAX);
    assert_eq!(st.value.len(), CG_VALUE_MAX);
    let fi = cgroup_file_info::default();
    assert!(matches!(fi.file_type, cgroup_file_type::CGROUP_FILE_TYPE_FILE));
    assert!(fi.path.is_empty() && fi.parent.is_empty() && fi.full_path.is_empty());
    assert_eq!(fi.depth, 0);
}

#[test]
fn collection_reads_until_end() {
    let mut c = MountPointsCollection::new(&ready());
    assert_eq!(c.call(), Some(IterCall::Begin));
    c.next(MountStep { ret: 0, handle_open: true, mount: mount_point("cpu", "/cg/cpu") }, describe);
    assert_eq!(c.call(), Some(IterCall::Next));
    c.next(MountStep { ret: 0, handle_open: true, mount: mount_point("memory", "/cg/mem") }, describe);
    assert_eq!(c.call(), Some(IterCall::Next));
    c.next(MountStep { ret: ECGEOF, handle_open: true, mount: mount_point("", "") }, describe);
    assert_eq!(c.call(), None);
    let ms = c.finish().unwrap();
    assert_eq!(ms.len(), 2);
    assert_eq!(ms[0].controller_name, "cpu");
    assert_eq!(ms[1].path, "/cg/mem");
}

#[test]
fn collection_stops_at_first_error() {
    let mut c = MountPointsCollection::new(&ready());
    c.next(MountStep { ret: 0, handle_open: true, mount: mount_point("cpu", "/cg/cpu") }, describe);
    assert_eq!(c.call(), Some(IterCall::Next));
    c.next(MountStep { ret: 50016, handle_open: true, mount: mount_point("", "") }, describe);
    assert_eq!(c.call(), None);
    let e = c.finish().unwrap_err();
    assert_eq!(e.code, 50016);
    assert_eq!(e.description, "libcgroup error 50016");
}

#[test]
fn from_impls_read_records() {
    let m = CGroupMount::from(mount_point("blkio", "/cg/blkio"));
    assert_eq!(m.controller_name, "blkio");
    assert_eq!(m.path, "/cg/blkio");
    let f = CGroupFile::from(file_info(cgroup_file_type::CGROUP_FILE_TYPE_DIR, "g", 4));
    assert!(matches!(f, CGroupFile::Dir(ref i) if i.path == "g" && i.depth == 4));
}

#[test]
fn record_clones_are_copies() {
    let mut d = new_controller_data();
    d.name[0] = b'c';
    d.num_cgroups = 3;
    let c = d.clone();
    assert_eq!(c.name, d.name);
    assert_eq!((c.hierarchy, c.num_cgroups, c.enabled), (0, 3, 0));
    let mp = mount_point("cpu", "/cg/cpu");
    let mc = mp.clone();
    assert_eq!((mc.name, mc.path), (mp.name, mp.path));
    let fi = file_info(cgroup_file_type::CGROUP_FILE_TYPE_OTHER, "x", 2);
    let fc = fi.clone();
    assert_eq!((fc.path, fc.parent, fc.full_path, fc.depth), (fi.path, fi.parent, fi.full_path, fi.depth));
    let st = cgroup_stat::default();
    assert_eq!(st.clone().value, st.value);
}

#[test]
fn walk_is_printable() {
    let it = CGroupWalkIter::new("memory".to_string(), &ready());
    assert!(format!("{:?}", it).contains("memory"));
}
