//! The syscall-filter program of the decoding sandbox.
//!
//! The classic-BPF program is assembled here: a check of the audit
//! architecture, a flat allowlist of syscall numbers, one conditional rule
//! that admits `clone` only without namespace-creation flags, and a final
//! `EPERM` for everything else. [`filter_verdict`] gives the meaning of a
//! program the way the kernel runs it, and the laws at the end of this
//! file state what the assembled program decides.

use vstd::prelude::*;

verus! {

/// One classic-BPF instruction (`struct sock_filter`).
#[derive(Clone, Copy, Debug, PartialEq, Eq, Structural)]
pub struct SockFilter {
    pub code: u16,
    pub jt: u8,
    pub jf: u8,
    pub k: u32,
}

/// `BPF_LD | BPF_W | BPF_ABS`: load the 32-bit word at offset `k`.
pub const LD_W_ABS: u16 = 0x20;
/// `BPF_JMP | BPF_JEQ | BPF_K`: skip `jt` when the accumulator equals `k`,
/// else skip `jf`.
pub const JEQ_K: u16 = 0x15;
/// `BPF_ALU | BPF_AND | BPF_K`: mask the accumulator with `k`.
pub const AND_K: u16 = 0x54;
/// `BPF_RET | BPF_K`: return `k`.
pub const RET_K: u16 = 0x06;

/// `SECCOMP_RET_ALLOW`.
pub const RET_ALLOW: u32 = 0x7fff_0000;
/// `SECCOMP_RET_KILL_PROCESS`.
pub const RET_KILL: u32 = 0x8000_0000;
/// `SECCOMP_RET_ERRNO` carrying `EPERM`.
pub const RET_EPERM: u32 = 0x0005_0001;

/// Offset of `nr` in `struct seccomp_data`.
pub const NR_OFFSET: u32 = 0;
/// Offset of `arch` in `struct seccomp_data`.
pub const ARCH_OFFSET: u32 = 4;
/// Longest program the kernel accepts.
pub const BPF_MAX_LEN: usize = 4096;

/// What the filter needs to know of the machine it runs on.
pub struct FilterPlatform {
    /// Syscall numbers that run unconditionally.
    pub allowed: Vec<i64>,
    /// Number of the `clone` syscall.
    pub clone_nr: i64,
    /// Union of the `CLONE_NEW*` flag bits, all in the low 32 bits.
    pub clone_namespace_mask: u32,
    /// Offset of the low 32-bit half of `args[0]` in `seccomp_data`
    /// (16 on little-endian targets, 20 on big-endian ones).
    pub arg0_low_offset: u32,
}

pub open spec fn stmt_spec(code: u16, k: u32) -> SockFilter {
    SockFilter { code, jt: 0, jf: 0, k }
}

pub open spec fn jump_spec(code: u16, k: u32, jt: u8, jf: u8) -> SockFilter {
    SockFilter { code, jt, jf, k }
}

/// A statement: an instruction that does not branch.
pub fn stmt(code: u16, k: u32) -> (r: SockFilter)
    ensures
        r == stmt_spec(code, k),
{
    SockFilter { code, jt: 0, jf: 0, k }
}

/// A conditional jump.
pub fn jump(code: u16, k: u32, jt: u8, jf: u8) -> (r: SockFilter)
    ensures
        r == jump_spec(code, k, jt, jf),
{
    SockFilter { code, jt, jf, k }
}

/// Syscall numbers as the filter compares them, when every one of them
/// fits in 32 bits.
pub open spec fn fits_u32(n: i64) -> bool {
    0 <= n <= u32::MAX
}

/// The comparisons of the allowlist: one `JEQ`/`RET ALLOW` pair per number.
pub open spec fn allowlist_body(nrs: Seq<u32>) -> Seq<SockFilter>
    decreases nrs.len(),
{
    if nrs.len() == 0 {
        Seq::empty()
    } else {
        allowlist_body(nrs.drop_last()) + seq![
            jump_spec(JEQ_K, nrs.last(), 0, 1),
            stmt_spec(RET_K, RET_ALLOW),
        ]
    }
}

/// The whole program for an architecture, an allowlist (already narrowed
/// to 32 bits), the `clone` number, the namespace mask and the offset of
/// the low half of `args[0]`.
pub open spec fn filter_program(
    arch: u32,
    nrs: Seq<u32>,
    clone_nr: u32,
    mask: u32,
    arg0_low: u32,
) -> Seq<SockFilter> {
    seq![
        stmt_spec(LD_W_ABS, ARCH_OFFSET),
        jump_spec(JEQ_K, arch, 1, 0),
        stmt_spec(RET_K, RET_KILL),
        stmt_spec(LD_W_ABS, NR_OFFSET),
    ] + allowlist_body(nrs) + seq![
        jump_spec(JEQ_K, clone_nr, 0, 4),
        stmt_spec(LD_W_ABS, arg0_low),
        stmt_spec(AND_K, mask),
        jump_spec(JEQ_K, 0, 0, 1),
        stmt_spec(RET_K, RET_ALLOW),
        stmt_spec(RET_K, RET_EPERM),
    ]
}

/// The 32-bit word at byte offset `k` of `seccomp_data`, given as its
/// sixteen native-endian words.
pub open spec fn load_word(data: Seq<u32>, k: u32) -> u32 {
    if k % 4 == 0 && k / 4 < data.len() {
        data[(k / 4) as int]
    } else {
        0
    }
}

/// What the kernel returns when it runs `prog` from instruction `pc` with
/// accumulator `acc` over `data`; `None` when the program runs off its
/// end or holds an instruction outside the four this module emits.
pub open spec fn run_from(prog: Seq<SockFilter>, pc: int, acc: u32, data: Seq<u32>) -> Option<u32>
    decreases prog.len() - pc,
{
    if pc < 0 || pc >= prog.len() {
        None
    } else {
        let ins = prog[pc];
        if ins.code == LD_W_ABS {
            run_from(prog, pc + 1, load_word(data, ins.k), data)
        } else if ins.code == AND_K {
            run_from(prog, pc + 1, acc & ins.k, data)
        } else if ins.code == JEQ_K {
            let skip: int = if acc == ins.k {
                ins.jt as int
            } else {
                ins.jf as int
            };
            if pc + 1 + skip >= prog.len() {
                None
            } else {
                run_from(prog, pc + 1 + skip, acc, data)
            }
        } else if ins.code == RET_K {
            Some(ins.k)
        } else {
            None
        }
    }
}

/// The verdict of `prog` on the syscall described by `data`.
pub open spec fn filter_verdict(prog: Seq<SockFilter>, data: Seq<u32>) -> Option<u32> {
    run_from(prog, 0, 0, data)
}

/// The allowlist as the filter compares it: each number cut to 32 bits.
pub open spec fn narrowed(allowed: Seq<i64>) -> Seq<u32> {
    allowed.map_values(|n: i64| n as u32)
}

/// Every number of `allowed`, and `clone_nr`, fits in 32 bits.
pub open spec fn numbers_fit(allowed: Seq<i64>, clone_nr: i64) -> bool {
    &&& forall|i: int| 0 <= i < allowed.len() ==> fits_u32(#[trigger] allowed[i])
    &&& fits_u32(clone_nr)
}

/// Length of the program for an allowlist of `n` numbers.
pub open spec fn program_len(n: nat) -> int {
    2 * (n as int) + 10
}

proof fn lemma_allowlist_body(nrs: Seq<u32>)
    ensures
        allowlist_body(nrs).len() == 2 * nrs.len(),
        forall|i: int|
            0 <= i < nrs.len() ==> #[trigger] allowlist_body(nrs)[2 * i] == jump_spec(
                JEQ_K,
                nrs[i],
                0,
                1,
            ) && allowlist_body(nrs)[2 * i + 1] == stmt_spec(RET_K, RET_ALLOW),
    decreases nrs.len(),
{
    if nrs.len() > 0 {
        lemma_allowlist_body(nrs.drop_last());
        let prev = allowlist_body(nrs.drop_last());
        assert forall|i: int| 0 <= i < nrs.len() implies #[trigger] allowlist_body(nrs)[2 * i]
            == jump_spec(JEQ_K, nrs[i], 0, 1) && allowlist_body(nrs)[2 * i + 1] == stmt_spec(
            RET_K,
            RET_ALLOW,
        ) by {
            if i < nrs.len() - 1 {
                assert(nrs.drop_last()[i] == nrs[i]);
                assert(prev[2 * i] == jump_spec(JEQ_K, nrs.drop_last()[i], 0, 1));
            }
        }
    }
}

/// Assemble the filter for `audit_arch` and the machine's syscall table.
///
/// Fails with `"syscall number out of range"` when a number of the table
/// does not fit in 32 bits, and with `"filter too long"` when the program
/// would exceed [`BPF_MAX_LEN`] instructions.
pub fn build_program(audit_arch: u32, platform: &FilterPlatform) -> (r: Result<Vec<SockFilter>, &'static str>)
    ensures
        match r {
            Ok(program) => {
                &&& numbers_fit(platform.allowed@, platform.clone_nr)
                &&& program_len(platform.allowed@.len()) <= BPF_MAX_LEN
                &&& program@ == filter_program(
                    audit_arch,
                    narrowed(platform.allowed@),
                    platform.clone_nr as u32,
                    platform.clone_namespace_mask,
                    platform.arg0_low_offset,
                )
            },
            Err(msg) => if !numbers_fit(platform.allowed@, platform.clone_nr) {
                msg == "syscall number out of range"
            } else {
                &&& program_len(platform.allowed@.len()) > BPF_MAX_LEN
                &&& msg == "filter too long"
            },
        },
{
    let allowed = &platform.allowed;
    let mut program: Vec<SockFilter> = Vec::new();
    // The syscall numbers below only mean anything for the personality
    // we were compiled for, and a filter outlives `execve`.
    program.push(stmt(LD_W_ABS, ARCH_OFFSET));
    program.push(jump(JEQ_K, audit_arch, 1, 0));
    program.push(stmt(RET_K, RET_KILL));
    program.push(stmt(LD_W_ABS, NR_OFFSET));
    let ghost head = program@;
    let mut i: usize = 0;
    while i < allowed.len()
        invariant
            i <= allowed@.len(),
            allowed@ == platform.allowed@,
            head == seq![
                stmt_spec(LD_W_ABS, ARCH_OFFSET),
                jump_spec(JEQ_K, audit_arch, 1, 0),
                stmt_spec(RET_K, RET_KILL),
                stmt_spec(LD_W_ABS, NR_OFFSET),
            ],
            program@ == head + allowlist_body(narrowed(allowed@.take(i as int))),
            forall|j: int| 0 <= j < i ==> fits_u32(#[trigger] allowed@[j]),
        decreases allowed@.len() - i,
    {
        let nr = allowed[i];
        if nr < 0 || nr > 0xffff_ffff {
            assert(!fits_u32(allowed@[i as int]));
            return Err("syscall number out of range");
        }
        // Pairing each comparison with its own return keeps every jump
        // offset at 0 or 1.
        program.push(jump(JEQ_K, nr as u32, 0, 1));
        program.push(stmt(RET_K, RET_ALLOW));
        proof {
            let next = narrowed(allowed@.take(i + 1));
            assert(next.drop_last() =~= narrowed(allowed@.take(i as int)));
            assert(next.last() == nr as u32);
            assert(program@ =~= head + allowlist_body(next));
        }
        i = i + 1;
    }
    assert(allowed@.take(allowed@.len() as int) =~= allowed@);
    // `clone` is allowed only when arg 0 (`flags`) carries no
    // namespace-creation bit; every `CLONE_NEW*` bit lives in the low
    // 32 bits of `flags`, so testing the low half alone is exact.
    let clone_nr = platform.clone_nr;
    if clone_nr < 0 || clone_nr > 0xffff_ffff {
        return Err("syscall number out of range");
    }
    program.push(jump(JEQ_K, clone_nr as u32, 0, 4));
    program.push(stmt(LD_W_ABS, platform.arg0_low_offset));
    program.push(stmt(AND_K, platform.clone_namespace_mask));
    program.push(jump(JEQ_K, 0, 0, 1));
    program.push(stmt(RET_K, RET_ALLOW));
    program.push(stmt(RET_K, RET_EPERM));
    proof {
        lemma_allowlist_body(narrowed(allowed@));
        assert(program@ =~= filter_program(
            audit_arch,
            narrowed(allowed@),
            clone_nr as u32,
            platform.clone_namespace_mask,
            platform.arg0_low_offset,
        ));
    }
    if program.len() > BPF_MAX_LEN {
        return Err("filter too long");
    }
    Ok(program)
}

/// How the sandbox's syscall filter stands.
#[derive(Clone, Copy, Debug)]
pub enum SeccompPosture {
    /// The filter is installed on the calling thread.
    Enforced,
    /// No filter could be installed, for the given reason.
    Unsupported { reason: &'static str },
    /// Filtering is compiled out.
    Disabled,
}

/// The filter to install, decided before any call into the kernel: `None`
/// for the audit architecture means the machine's syscall numbering has not
/// been vetted. Refusals carry the posture the sandbox then reports.
pub fn prepare_filter(audit_arch: Option<u32>, platform: &FilterPlatform) -> (r: Result<
    Vec<SockFilter>,
    SeccompPosture,
>)
    ensures
        match audit_arch {
            None => r == Err::<Vec<SockFilter>, SeccompPosture>(
                SeccompPosture::Unsupported { reason: "unsupported architecture" },
            ),
            Some(arch) => match r {
                Ok(program) => {
                    &&& numbers_fit(platform.allowed@, platform.clone_nr)
                    &&& program_len(platform.allowed@.len()) <= BPF_MAX_LEN
                    &&& program@ == filter_program(
                        arch,
                        narrowed(platform.allowed@),
                        platform.clone_nr as u32,
                        platform.clone_namespace_mask,
                        platform.arg0_low_offset,
                    )
                },
                Err(posture) => if !numbers_fit(platform.allowed@, platform.clone_nr) {
                    posture == SeccompPosture::Unsupported { reason: "syscall number out of range" }
                } else {
                    &&& program_len(platform.allowed@.len()) > BPF_MAX_LEN
                    &&& posture == SeccompPosture::Unsupported { reason: "filter too long" }
                },
            },
        },
{
    let arch = match audit_arch {
        Some(a) => a,
        None => {
            return Err(SeccompPosture::Unsupported { reason: "unsupported architecture" });
        },
    };
    let program = match build_program(arch, platform) {
        Ok(p) => p,
        Err(reason) => {
            return Err(SeccompPosture::Unsupported { reason });
        },
    };
    proof {
        lemma_allowlist_body(narrowed(platform.allowed@));
    }
    // The kernel takes the length as a 16-bit count.
    if program.len() > 0xffff {
        return Err(SeccompPosture::Unsupported { reason: "filter too long" });
    }
    Ok(program)
}

/// Every number after the first is larger than the one before it.
pub open spec fn strictly_increasing(s: Seq<i64>) -> bool {
    forall|i: int, j: int| 0 <= i < j < s.len() ==> s[i] < s[j]
}

/// The machine's allowlist in the form the filter is built from: sorted
/// and without repeats, holding exactly the numbers of `table`.
pub fn sorted_allowlist(table: &Vec<i64>) -> (r: Vec<i64>)
    ensures
        strictly_increasing(r@),
        forall|x: i64| r@.contains(x) <==> table@.contains(x),
{
    let mut out: Vec<i64> = Vec::new();
    let mut i: usize = 0;
    while i < table.len()
        invariant
            i <= table@.len(),
            strictly_increasing(out@),
            forall|x: i64| out@.contains(x) <==> table@.take(i as int).contains(x),
        decreases table@.len() - i,
    {
        let x = table[i];
        let mut p: usize = 0;
        while p < out.len() && out[p] < x
            invariant
                p <= out@.len(),
                forall|k: int| 0 <= k < p ==> out@[k] < x,
            decreases out@.len() - p,
        {
            p = p + 1;
        }
        let ghost before = out@;
        assert(table@.take(i + 1) =~= table@.take(i as int).push(x));
        if p < out.len() && out[p] == x {
            assert(before.contains(x));
        } else {
            out.insert(p, x);
            proof {
                assert(out@ =~= before.subrange(0, p as int).push(x) + before.subrange(p as int, before.len() as int));
                assert forall|a: int, b: int| 0 <= a < b < out@.len() implies out@[a] < out@[b] by {
                    if b < p {
                        assert(out@[a] == before[a] && out@[b] == before[b]);
                    } else if b == p {
                        assert(out@[a] == before[a]);
                    } else if a < p {
                        assert(out@[a] == before[a] && out@[b] == before[b - 1]);
                        assert(before[p as int] > x);
                        if b - 1 > p {
                            assert(before[p as int] < before[b - 1]);
                        }
                    } else if a == p {
                        assert(out@[b] == before[b - 1]);
                        assert(before[p as int] > x);
                        if b - 1 > p {
                            assert(before[p as int] < before[b - 1]);
                        }
                    } else {
                        assert(out@[a] == before[a - 1] && out@[b] == before[b - 1]);
                    }
                }
                assert forall|y: i64| out@.contains(y) <==> before.contains(y) || y == x by {
                    if out@.contains(y) {
                        let k = choose|k: int| 0 <= k < out@.len() && out@[k] == y;
                        if k < p {
                            assert(before[k] == y);
                        } else if k > p {
                            assert(before[k - 1] == y);
                        }
                    }
                    if before.contains(y) {
                        let k = choose|k: int| 0 <= k < before.len() && before[k] == y;
                        if k < p {
                            assert(out@[k] == y);
                        } else {
                            assert(out@[k + 1] == y);
                        }
                    }
                    if y == x {
                        assert(out@[p as int] == x);
                    }
                }
            }
        }
        proof {
            assert forall|y: i64| table@.take(i + 1).contains(y) <==> table@.take(i as int).contains(y) || y == x by {
                let t = table@.take(i + 1);
                if t.contains(y) {
                    let k = choose|k: int| 0 <= k < t.len() && t[k] == y;
                    if k < i {
                        assert(table@.take(i as int)[k] == y);
                    }
                }
                if table@.take(i as int).contains(y) {
                    let k = choose|k: int| 0 <= k < i && table@.take(i as int)[k] == y;
                    assert(t[k] == y);
                }
                if y == x {
                    assert(t[i as int] == x);
                }
            }
            assert forall|y: i64| out@.contains(y) <==> table@.take(i + 1).contains(y) by {
                assert(before.contains(y) <==> table@.take(i as int).contains(y));
                assert(table@.take(i + 1).contains(y) <==> table@.take(i as int).contains(y) || y == x);
            }
        }
        i = i + 1;
    }
    assert(table@.take(table@.len() as int) =~= table@);
    out
}

/// Run `program` over `data` the way the kernel does, returning the
/// filter's verdict, or `None` for a program that runs off its end or
/// holds an instruction other than the four [`build_program`] emits.
pub fn run_filter(program: &[SockFilter], data: &[u32]) -> (r: Option<u32>)
    ensures
        r == filter_verdict(program@, data@),
{
    let mut pc: usize = 0;
    let mut acc: u32 = 0;
    while pc < program.len()
        invariant
            filter_verdict(program@, data@) == run_from(program@, pc as int, acc, data@),
        decreases program@.len() - pc,
    {
        let ins = program[pc];
        if ins.code == LD_W_ABS {
            acc = if ins.k % 4 == 0 && ((ins.k / 4) as usize) < data.len() {
                data[(ins.k / 4) as usize]
            } else {
                0
            };
            pc = pc + 1;
        } else if ins.code == AND_K {
            acc = acc & ins.k;
            pc = pc + 1;
        } else if ins.code == JEQ_K {
            let skip: usize = if acc == ins.k {
                ins.jt as usize
            } else {
                ins.jf as usize
            };
            let next = pc + 1;
            if skip > program.len() - next {
                return None;
            }
            pc = next + skip;
        } else if ins.code == RET_K {
            return Some(ins.k);
        } else {
            return None;
        }
    }
    None
}

/// The verdict the sandbox intends for a syscall: a foreign architecture
/// kills the process, an allowlisted number runs, `clone` runs only
/// without a namespace-creation flag in the low half of its first
/// argument, and everything else fails with `EPERM`.
pub open spec fn intended_verdict(
    arch: u32,
    nrs: Seq<u32>,
    clone_nr: u32,
    mask: u32,
    arg0_low: u32,
    data: Seq<u32>,
) -> u32 {
    let nr = load_word(data, NR_OFFSET);
    if load_word(data, ARCH_OFFSET) != arch {
        RET_KILL
    } else if nrs.contains(nr) {
        RET_ALLOW
    } else if nr == clone_nr {
        if load_word(data, arg0_low) & mask == 0 {
            RET_ALLOW
        } else {
            RET_EPERM
        }
    } else {
        RET_EPERM
    }
}

proof fn lemma_allowlist_run(
    arch: u32,
    nrs: Seq<u32>,
    clone_nr: u32,
    mask: u32,
    arg0_low: u32,
    data: Seq<u32>,
    i: int,
)
    requires
        0 <= i <= nrs.len(),
    ensures
        run_from(
            filter_program(arch, nrs, clone_nr, mask, arg0_low),
            4 + 2 * i,
            load_word(data, NR_OFFSET),
            data,
        ) == if nrs.subrange(i, nrs.len() as int).contains(load_word(data, NR_OFFSET)) {
            Some(RET_ALLOW)
        } else {
            run_from(
                filter_program(arch, nrs, clone_nr, mask, arg0_low),
                4 + 2 * (nrs.len() as int),
                load_word(data, NR_OFFSET),
                data,
            )
        },
    decreases nrs.len() - i,
{
    let prog = filter_program(arch, nrs, clone_nr, mask, arg0_low);
    let nr = load_word(data, NR_OFFSET);
    lemma_allowlist_body(nrs);
    let body = allowlist_body(nrs);
    assert(prog.len() == 2 * nrs.len() + 10);
    if i < nrs.len() {
        lemma_allowlist_run(arch, nrs, clone_nr, mask, arg0_low, data, i + 1);
        assert(body[2 * i] == jump_spec(JEQ_K, nrs[i], 0, 1));
        assert(body[2 * i + 1] == stmt_spec(RET_K, RET_ALLOW));
        assert(prog[4 + 2 * i] == body[2 * i]);
        assert(prog[4 + 2 * i + 1] == body[2 * i + 1]);
        assert(run_from(prog, 4 + 2 * i + 1, nr, data) == Some(RET_ALLOW));
        let rest = nrs.subrange(i, nrs.len() as int);
        let later = nrs.subrange(i + 1, nrs.len() as int);
        assert(rest =~= seq![nrs[i]] + later);
        if nr == nrs[i] {
            assert(rest[0] == nr);
        } else {
            assert(rest.contains(nr) == later.contains(nr)) by {
                if rest.contains(nr) {
                    let k = choose|k: int| 0 <= k < rest.len() && rest[k] == nr;
                    assert(later[k - 1] == nr);
                }
                if later.contains(nr) {
                    let k = choose|k: int| 0 <= k < later.len() && later[k] == nr;
                    assert(rest[k + 1] == nr);
                }
            }
            assert(4 + 2 * i + 1 + 1 == 4 + 2 * (i + 1));
        }
    } else {
        assert(nrs.subrange(i, nrs.len() as int) =~= Seq::<u32>::empty());
    }
}

/// What the assembled filter decides is what the sandbox intends, for
/// every syscall the kernel can hand it.
pub proof fn law_filter_decides_intended_verdict(
    arch: u32,
    nrs: Seq<u32>,
    clone_nr: u32,
    mask: u32,
    arg0_low: u32,
    data: Seq<u32>,
)
    ensures
        filter_verdict(filter_program(arch, nrs, clone_nr, mask, arg0_low), data) == Some(
            intended_verdict(arch, nrs, clone_nr, mask, arg0_low, data),
        ),
{
    let prog = filter_program(arch, nrs, clone_nr, mask, arg0_low);
    let n = nrs.len() as int;
    lemma_allowlist_body(nrs);
    let tail = seq![
        jump_spec(JEQ_K, clone_nr, 0, 4),
        stmt_spec(LD_W_ABS, arg0_low),
        stmt_spec(AND_K, mask),
        jump_spec(JEQ_K, 0, 0, 1),
        stmt_spec(RET_K, RET_ALLOW),
        stmt_spec(RET_K, RET_EPERM),
    ];
    assert(prog.len() == 2 * n + 10);
    assert(prog[0] == stmt_spec(LD_W_ABS, ARCH_OFFSET));
    assert(prog[1] == jump_spec(JEQ_K, arch, 1, 0));
    assert(prog[2] == stmt_spec(RET_K, RET_KILL));
    assert(prog[3] == stmt_spec(LD_W_ABS, NR_OFFSET));
    assert(prog[4 + 2 * n] == jump_spec(JEQ_K, clone_nr, 0, 4));
    assert(prog[4 + 2 * n + 1] == stmt_spec(LD_W_ABS, arg0_low));
    assert(prog[4 + 2 * n + 2] == stmt_spec(AND_K, mask));
    assert(prog[4 + 2 * n + 3] == jump_spec(JEQ_K, 0, 0, 1));
    assert(prog[4 + 2 * n + 4] == stmt_spec(RET_K, RET_ALLOW));
    assert(prog[4 + 2 * n + 5] == stmt_spec(RET_K, RET_EPERM));
    let nr = load_word(data, NR_OFFSET);
    let a0 = load_word(data, arg0_low);
    let aw = load_word(data, ARCH_OFFSET);
    assert(run_from(prog, 2, aw, data) == Some(RET_KILL));
    assert(run_from(prog, 0, 0, data) == run_from(prog, 1, aw, data));
    if aw == arch {
        assert(run_from(prog, 1, aw, data) == run_from(prog, 3, aw, data));
        assert(run_from(prog, 3, aw, data) == run_from(prog, 4, nr, data));
        lemma_allowlist_run(arch, nrs, clone_nr, mask, arg0_low, data, 0);
        assert(nrs.subrange(0, n) =~= nrs);
        assert(run_from(prog, 4 + 2 * n + 5, nr, data) == Some(RET_EPERM));
        assert(run_from(prog, 4 + 2 * n + 4, a0 & mask, data) == Some(RET_ALLOW));
        assert(run_from(prog, 4 + 2 * n + 5, a0 & mask, data) == Some(RET_EPERM));
        assert(run_from(prog, 4 + 2 * n + 3, a0 & mask, data) == if a0 & mask == 0 {
            Some(RET_ALLOW)
        } else {
            Some(RET_EPERM)
        });
        assert(run_from(prog, 4 + 2 * n + 2, a0, data) == run_from(prog, 4 + 2 * n + 3, a0 & mask, data));
        assert(run_from(prog, 4 + 2 * n + 1, nr, data) == run_from(prog, 4 + 2 * n + 2, a0, data));
    } else {
        assert(run_from(prog, 1, aw, data) == run_from(prog, 2, aw, data));
    }
}

} // verus!
