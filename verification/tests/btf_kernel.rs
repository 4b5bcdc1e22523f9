// Resolution against the type information of the running kernel, read from
// /sys/kernel/btf.

use bpftrace_ls::chain::chain_str_to_tokens;
use bpftrace_ls::probe::module_btf_path;
use bpftrace_ls::resolve::btf_resolve_func;
use bpftrace_ls::resolve::resolve_struct;
use bpftrace_ls::walk::btf_iterate_over_names_chain;
use btf_rs::Btf;

// Reads the type information of the kernel, or of a module on top of it,
// from where the library says it is.
fn btf_setup_module(module: &str) -> Option<Btf> {
    let btf_base = Btf::from_file("/sys/kernel/btf/vmlinux").unwrap();
    let Some(path) = module_btf_path(module) else {
        return Some(btf_base);
    };

    if let Ok(btf) = Btf::from_split_file(&path, &btf_base) {
        return Some(btf);
    }

    None
}

#[test]
fn test_load_module() {
    let btf1 = btf_setup_module("vmlinux");
    match btf1 {
        Some(_) => assert!(true),
        None => assert!(false),
    }
    let btf2 = btf_setup_module("blabla713h");
    match btf2 {
        Some(_) => assert!(false),
        None => assert!(true),
    }
}

#[test]
fn test_chain_str_to_tokens() {
    assert!(chain_str_to_tokens("args") == vec!["args"]);
    assert!(chain_str_to_tokens("args.") == vec!["args", "."]);
    assert!(chain_str_to_tokens("xxx->yyy") == vec!["xxx", "->", "yyy"]);
    assert!(chain_str_to_tokens("a.b.c.d") == vec!["a", ".", "b", ".", "c", ".", "d"]);
    assert!(
        chain_str_to_tokens("args.f1.f2->f3") == vec!["args", ".", "f1", ".", "f2", "->", "f3"]
    );
}

#[test]
fn test_resolve() {
    let btf = btf_setup_module("vmlinux").unwrap();

    let r = btf_resolve_func(&btf, "alloc_pid", true).unwrap();
    assert!(r.name == "alloc_pid");
    assert!(r.children_vec[0].name == "ns");

    let pid_namespace = resolve_struct(&btf, r.children_vec[0].type_id).unwrap();
    assert!(pid_namespace.name == "pid_namespace");

    let pid_cachep = pid_namespace
        .children_vec
        .iter()
        .find(|v| v.name == "pid_cachep")
        .unwrap();
    assert!(pid_cachep.name == "pid_cachep");
    assert!(pid_cachep.type_vec[1] == "kmem_cache");
}

#[test]
fn test_iterate_over_mixed_chain() {
    // alloc_pid: ns->rcu.next->func
    let btf = btf_setup_module("vmlinux").unwrap();

    let base = btf_resolve_func(&btf, "alloc_pid", true).unwrap();

    let resolved = btf_iterate_over_names_chain(&btf, base.clone(), "args.ns->rcu.next").unwrap();
    assert!(resolved.name == "next");
    assert!(resolved.children_vec[0].name == "next");

    let resolved_func =
        btf_iterate_over_names_chain(&btf, base.clone(), "args.ns->rcu.func").unwrap();
    assert!(resolved_func.name == "func");
    assert_eq!(
        resolved_func.type_vec,
        vec!["void (*)( struct callback_head * )"]
    );
}

#[test]
fn test_iterate_over_dreference_chain() {
    // vfs_open: path->dentry->d_inode->i_uid
    let btf = btf_setup_module("vmlinux").unwrap();

    let base = btf_resolve_func(&btf, "vfs_open", true).unwrap();
    assert!(base.name == "vfs_open");

    let resolved = btf_iterate_over_names_chain(&btf, base.clone(), "").unwrap();
    assert!(resolved.name == "vfs_open");
    assert!(resolved.children_vec.len() == 3);
    assert!(resolved.children_vec[0].name == "path");
    assert!(resolved.children_vec[2].name == "retval");

    let resolved = btf_iterate_over_names_chain(&btf, base.clone(), "args.path").unwrap();
    assert!(resolved.name == "path");
    assert!(resolved.type_vec == vec!["const", "struct", "path", "*"]);
    assert!(resolved.children_vec.len() > 0);

    let resolved =
        btf_iterate_over_names_chain(&btf, base, "args.path->dentry->d_inode").unwrap();
    assert!(resolved.name == "d_inode");
    assert!(resolved.children_vec.len() > 0);

    let i_state = resolved
        .children_vec
        .iter()
        .find(|&r| r.name == "i_ino")
        .unwrap();
    assert!(i_state.type_vec == vec!("long unsigned int"));

    let i_count = resolved
        .children_vec
        .iter()
        .find(|&r| r.name == "i_count")
        .unwrap();
    assert!(i_count.type_vec == vec!("atomic_t"));

    let i_uid = resolved
        .children_vec
        .iter()
        .find(|&r| r.name == "i_uid")
        .unwrap();
    assert!(i_uid.type_vec == vec!("kuid_t"));
}

#[test]
fn test_resolve_rt2800_link_tuner() {
    let btf = match btf_setup_module("rt2800lib") {
        Some(btf) => btf,
        None => {
            println!("\x1b[33mskipped\x1b[0m: rt2800lib module not loaded");
            return;
        }
    };
    let base = btf_resolve_func(&btf, "rt2800_link_tuner", true).unwrap();
    let resolved = btf_iterate_over_names_chain(&btf, base.clone(), "qual->").unwrap();

    let vgc_level = resolved
        .children_vec
        .iter()
        .find(|&r| r.name == "vgc_level")
        .unwrap();
    assert!(vgc_level.type_vec == vec!("u8"));
}

#[test]
fn test_resolve_k_itimer_union() {
    let btf = btf_setup_module("vmlinux").unwrap();
    let base = btf_resolve_func(&btf, "posixtimer_send_sigqueue", true).unwrap();
    let resolved = btf_iterate_over_names_chain(&btf, base.clone(), "args.tmr->it").unwrap();

    assert!(resolved.type_vec.iter().any(|s| s == "union"));

    let cpu_member = resolved
        .children_vec
        .iter()
        .find(|&r| r.name == "cpu")
        .unwrap();

    assert!(cpu_member.type_vec.iter().any(|s| s == "cpu_timer"));
    assert!(cpu_member.type_vec.iter().any(|s| s == "struct"));

    let real_member = resolved
        .children_vec
        .iter()
        .find(|&r| r.name == "real")
        .unwrap();

    assert!(real_member.type_vec.iter().any(|s| s == "struct"));
}

#[test]
fn test_resolve_ieee80211_hw_array_in_struct() {
    // This test requires mac80211 module to be loaded
    let btf = match btf_setup_module("mac80211") {
        Some(btf) => btf,
        None => {
            println!("\x1b[33mskipped\x1b[0m: mac80211 module not loaded");
            return;
        }
    };
    let base = btf_resolve_func(&btf, "ieee80211_register_hw", true).unwrap();

    // The argument is struct ieee80211_hw *hw
    let hw = btf_iterate_over_names_chain(&btf, base.clone(), "args.hw").unwrap();

    let flags = hw
        .children_vec
        .iter()
        .find(|&r| r.name == "flags")
        .unwrap();

    assert_eq!(flags.type_vec, vec!["long unsigned int", "[]"]);
}
