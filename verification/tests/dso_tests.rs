use perf_etw_events::dso_key::DsoKey;
use perf_etw_events::perf_event_raw::{
    PERF_RECORD_MISC_GUEST_KERNEL, PERF_RECORD_MISC_GUEST_USER, PERF_RECORD_MISC_KERNEL,
    PERF_RECORD_MISC_USER,
};

#[test]
fn special_paths_are_never_dsos() {
    for misc in [
        0u16,
        PERF_RECORD_MISC_KERNEL,
        PERF_RECORD_MISC_USER,
        PERF_RECORD_MISC_GUEST_KERNEL,
        PERF_RECORD_MISC_GUEST_USER,
        7,
    ] {
        assert_eq!(DsoKey::detect(b"//anon", misc), None);
        assert_eq!(DsoKey::detect(b"[stack]", misc), None);
        assert_eq!(DsoKey::detect(b"[heap]", misc), None);
        assert_eq!(DsoKey::detect(b"[vvar]", misc), None);
    }
}

#[test]
fn kallsyms_cpumode_override() {
    assert_eq!(
        DsoKey::detect(b"[kernel.kallsyms]_text", PERF_RECORD_MISC_USER),
        Some(DsoKey::Kernel)
    );
    assert_eq!(
        DsoKey::detect(b"[kernel.kallsyms]_text", PERF_RECORD_MISC_GUEST_KERNEL),
        Some(DsoKey::GuestKernel)
    );
    assert_eq!(
        DsoKey::detect(b"[kernel.kallsyms]", PERF_RECORD_MISC_KERNEL),
        Some(DsoKey::Kernel)
    );
}

#[test]
fn guest_kallsyms_prefix() {
    assert_eq!(
        DsoKey::detect(b"[guest.kernel.kallsyms]_text", PERF_RECORD_MISC_USER),
        Some(DsoKey::GuestKernel)
    );
}

#[test]
fn vdso_variants() {
    assert_eq!(DsoKey::detect(b"[vdso32]", 0), Some(DsoKey::Vdso32));
    assert_eq!(DsoKey::detect(b"[vdsox32]", 0), Some(DsoKey::VdsoX32));
    assert_eq!(DsoKey::detect(b"[vdso]", 0), Some(DsoKey::Vdso64));
    assert_eq!(DsoKey::detect(b"[vsyscall]", 0), Some(DsoKey::Vsyscall));
}

#[test]
fn kernel_module_from_ko_filename() {
    assert_eq!(
        DsoKey::detect(b"/lib/modules/5.13/kernel/x/foo.ko", PERF_RECORD_MISC_KERNEL),
        Some(DsoKey::KernelModule("[foo]".to_string()))
    );
    assert_eq!(
        DsoKey::detect(
            b"/lib/modules/5.13.0-35-generic/kernel/sound/core/snd-seq-device.ko",
            PERF_RECORD_MISC_GUEST_KERNEL
        ),
        Some(DsoKey::KernelModule("[snd-seq-device]".to_string()))
    );
}

#[test]
fn bracketed_kernel_module_token_kept_verbatim() {
    assert_eq!(
        DsoKey::detect(b"[nf_tables]", PERF_RECORD_MISC_KERNEL),
        Some(DsoKey::KernelModule("[nf_tables]".to_string()))
    );
    // Under the user cpumode the bracket rule does not apply.
    assert_eq!(
        DsoKey::detect(b"[nf_tables]", PERF_RECORD_MISC_USER),
        Some(DsoKey::User("[nf_tables]".to_string(), b"[nf_tables]".to_vec()))
    );
}

#[test]
fn user_basename() {
    assert_eq!(
        DsoKey::detect(b"/usr/bin/ls", PERF_RECORD_MISC_USER),
        Some(DsoKey::User("ls".to_string(), b"/usr/bin/ls".to_vec()))
    );
    assert_eq!(
        DsoKey::detect(b"ls", PERF_RECORD_MISC_GUEST_USER),
        Some(DsoKey::User("ls".to_string(), b"ls".to_vec()))
    );
}

#[test]
fn kernel_without_module_suffix() {
    assert_eq!(
        DsoKey::detect(b"/boot/vmlinuz", PERF_RECORD_MISC_KERNEL),
        Some(DsoKey::Kernel)
    );
    assert_eq!(
        DsoKey::detect(b"/boot/vmlinuz", PERF_RECORD_MISC_GUEST_KERNEL),
        Some(DsoKey::GuestKernel)
    );
}

#[test]
fn unknown_cpumode_is_no_dso() {
    // Hypervisor cpumode (3) matches none of the rules.
    assert_eq!(DsoKey::detect(b"/usr/bin/ls", 3), None);
}

#[test]
fn non_ascii_path_is_decoded_lossily() {
    // 0xFF is invalid UTF-8: the name must carry the replacement character,
    // not the raw byte.
    let key = DsoKey::detect(b"/usr/bin/l\xffs", PERF_RECORD_MISC_USER).unwrap();
    match &key {
        DsoKey::User(name, path) => {
            assert_eq!(name, "l\u{fffd}s");
            assert_eq!(path, b"/usr/bin/l\xffs");
        }
        other => panic!("expected a user DSO, got {other:?}"),
    }
}

#[test]
fn dso_names() {
    assert_eq!(DsoKey::Kernel.name(), "[kernel.kallsyms]");
    assert_eq!(DsoKey::GuestKernel.name(), "[guest.kernel.kallsyms]");
    assert_eq!(DsoKey::Vdso32.name(), "[vdso32]");
    assert_eq!(DsoKey::VdsoX32.name(), "[vdsox32]");
    assert_eq!(DsoKey::Vdso64.name(), "[vdso]");
    assert_eq!(DsoKey::Vsyscall.name(), "[vsyscall]");
    assert_eq!(DsoKey::KernelModule("[foo]".to_string()).name(), "[foo]");
    assert_eq!(
        DsoKey::User("ls".to_string(), b"/usr/bin/ls".to_vec()).name(),
        "ls"
    );
}
