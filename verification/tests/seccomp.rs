use glycin_ng::seccomp::{
    build_program, prepare_filter, run_filter, FilterPlatform, SeccompPosture, SockFilter,
    BPF_MAX_LEN, RET_ALLOW, RET_EPERM, RET_KILL,
};

const ARCH: u32 = 62 | 0x8000_0000 | 0x4000_0000;

/// A syscall table shaped like the machine's: a handful of numbers, the
/// real `clone` number and namespace mask, and the low half of `args[0]`
/// where this machine's byte order puts it.
fn platform() -> FilterPlatform {
    FilterPlatform {
        allowed: vec![libc::SYS_read, libc::SYS_write, libc::SYS_close, libc::SYS_exit_group],
        clone_nr: libc::SYS_clone,
        clone_namespace_mask: (libc::CLONE_NEWNS
            | libc::CLONE_NEWCGROUP
            | libc::CLONE_NEWUTS
            | libc::CLONE_NEWIPC
            | libc::CLONE_NEWUSER
            | libc::CLONE_NEWPID
            | libc::CLONE_NEWNET) as u32,
        arg0_low_offset: if u16::from_ne_bytes([1, 0]) == 1 { 16 } else { 20 },
    }
}

/// `struct seccomp_data` laid out byte for byte the way the kernel hands
/// it to the filter, as sixteen native-endian words.
fn seccomp_data(nr: u32, arch: u32, arg0: u64) -> Vec<u32> {
    let mut data = [0u8; 64];
    data[0..4].copy_from_slice(&nr.to_ne_bytes());
    data[4..8].copy_from_slice(&arch.to_ne_bytes());
    data[16..24].copy_from_slice(&arg0.to_ne_bytes());
    data.chunks(4)
        .map(|w| u32::from_ne_bytes([w[0], w[1], w[2], w[3]]))
        .collect()
}

fn run(program: &[SockFilter], arch: u32, nr: u32, arg0: u64) -> u32 {
    run_filter(program, &seccomp_data(nr, arch, arg0)).expect("filter returns")
}

#[test]
fn allowlisted_syscalls_pass_and_others_are_denied() {
    let p = platform();
    let program = build_program(ARCH, &p).expect("filter builds");
    for nr in &p.allowed {
        let nr = u32::try_from(*nr).unwrap();
        assert_eq!(run(&program, ARCH, nr, 0), RET_ALLOW, "syscall {nr}");
    }
    let socket = u32::try_from(libc::SYS_socket).unwrap();
    assert_eq!(run(&program, ARCH, socket, 0), RET_EPERM);
}

#[test]
fn clone_is_allowed_only_without_namespace_flags() {
    let program = build_program(ARCH, &platform()).expect("filter builds");
    let clone = u32::try_from(libc::SYS_clone).unwrap();
    let thread_flags = (libc::CLONE_VM | libc::CLONE_FS | libc::CLONE_THREAD) as u64;
    assert_eq!(run(&program, ARCH, clone, thread_flags), RET_ALLOW);
    assert_eq!(run(&program, ARCH, clone, libc::CLONE_NEWUSER as u64), RET_EPERM);
}

#[test]
fn foreign_architecture_is_killed() {
    let program = build_program(ARCH, &platform()).expect("filter builds");
    let read = u32::try_from(libc::SYS_read).unwrap();
    assert_eq!(run(&program, ARCH ^ 1, read, 0), RET_KILL);
}

#[test]
fn program_has_two_instructions_per_allowed_number() {
    let p = platform();
    let program = build_program(ARCH, &p).unwrap();
    assert_eq!(program.len(), 2 * p.allowed.len() + 10);
}

#[test]
fn out_of_range_numbers_are_refused() {
    let mut p = platform();
    p.allowed.push(-1);
    assert_eq!(build_program(ARCH, &p).unwrap_err(), "syscall number out of range");
    let mut p = platform();
    p.clone_nr = 1 << 40;
    assert_eq!(build_program(ARCH, &p).unwrap_err(), "syscall number out of range");
}

#[test]
fn oversized_allowlist_is_refused() {
    let mut p = platform();
    p.allowed = (0..(BPF_MAX_LEN as i64)).collect();
    assert_eq!(build_program(ARCH, &p).unwrap_err(), "filter too long");
}

#[test]
fn unvetted_architecture_has_no_filter() {
    match prepare_filter(None, &platform()) {
        Err(SeccompPosture::Unsupported { reason }) => assert_eq!(reason, "unsupported architecture"),
        _ => panic!("expected a refusal"),
    }
    assert!(prepare_filter(Some(ARCH), &platform()).is_ok());
}

#[test]
fn running_off_the_end_has_no_verdict() {
    let program = build_program(ARCH, &platform()).unwrap();
    assert_eq!(run_filter(&program[..2], &seccomp_data(0, ARCH, 0)), None);
}

#[test]
fn allowlist_is_sorted_and_deduplicated() {
    let table = vec![5, 3, 5, 1, 3, 9];
    let sorted = glycin_ng::seccomp::sorted_allowlist(&table);
    assert_eq!(sorted, vec![1, 3, 5, 9]);
    assert!(glycin_ng::seccomp::sorted_allowlist(&Vec::new()).is_empty());
}
