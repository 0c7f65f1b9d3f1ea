//! The build tool's decisions: what its command line asks for, which
//! firmware QEMU boots, and the arguments QEMU gets.
use vstd::prelude::*;
use vstd::string::StringExecFns;
use crate::text::string_push_str;

verus! {

/// Why building the system failed.
#[derive(Clone, Copy, Debug, PartialEq, Eq, Structural)]
pub enum BuildErrors {
    NoOutput,
    MissingExec,
    BuildFailed,
    Incomplete,
}

/// The message of a build error.
pub open spec fn build_error_text(e: BuildErrors) -> Seq<char> {
    match e {
        BuildErrors::NoOutput => "cargo did not output anything to stdout"@,
        BuildErrors::MissingExec => "could not find executable"@,
        BuildErrors::BuildFailed => "build failed"@,
        BuildErrors::Incomplete => "build did not complete"@,
    }
}

impl BuildErrors {
    /// The error's message.
    pub fn message(&self) -> (s: &'static str)
        ensures
            s@ == build_error_text(*self),
    {
        match self {
            BuildErrors::NoOutput => "cargo did not output anything to stdout",
            BuildErrors::MissingExec => "could not find executable",
            BuildErrors::BuildFailed => "build failed",
            BuildErrors::Incomplete => "build did not complete",
        }
    }
}

/// Why QEMU could not be started.
#[derive(Clone, Copy, Debug, PartialEq, Eq, Structural)]
pub enum QEMUErrors {
    /// The system's firmware was found, but it only works with KVM.
    MissingKVM,
    /// No firmware was found.
    NoOVMF,
}

/// The message of a QEMU error.
pub open spec fn qemu_error_text(e: QEMUErrors) -> Seq<char> {
    match e {
        QEMUErrors::MissingKVM => "It looks like you don't have KVM enabled. System OVFM only seems to work with KVM enabled. If you think you know what you are doing, comment out this error code & rebuild."@,
        QEMUErrors::NoOVMF => "Could not find an OVMF firmware to boot with."@,
    }
}

impl QEMUErrors {
    /// The error's message.
    pub fn message(&self) -> (s: &'static str)
        ensures
            s@ == qemu_error_text(*self),
    {
        match self {
            QEMUErrors::MissingKVM => "It looks like you don't have KVM enabled. System OVFM only seems to work with KVM enabled. If you think you know what you are doing, comment out this error code & rebuild.",
            QEMUErrors::NoOVMF => "Could not find an OVMF firmware to boot with.",
        }
    }
}

/// The firmware QEMU boots with: the local pure-EFI image, the images in the
/// folder that `OVMF` names, or the system's images.
#[derive(Debug)]
pub enum OvmfSource {
    Pure,
    Env(String),
    System,
}

/// Which firmware to use: the local image if it exists; else the folder
/// that the `OVMF` variable names; else the system's images when both
/// exist, which need KVM.
pub fn choose_ovmf(
    pure_exists: bool,
    env_ovmf: Option<String>,
    system_code_exists: bool,
    system_vars_exists: bool,
    has_kvm: bool,
) -> (r: Result<OvmfSource, QEMUErrors>)
    ensures
        pure_exists ==> r matches Ok(OvmfSource::Pure),
        !pure_exists && env_ovmf is Some ==> (r matches Ok(OvmfSource::Env(p)) && p@
            == env_ovmf->0@),
        !pure_exists && env_ovmf is None && system_code_exists && system_vars_exists ==> if has_kvm {
            r matches Ok(OvmfSource::System)
        } else {
            r == Err::<OvmfSource, QEMUErrors>(QEMUErrors::MissingKVM)
        },
        !pure_exists && env_ovmf is None && !(system_code_exists && system_vars_exists) ==> r
            == Err::<OvmfSource, QEMUErrors>(QEMUErrors::NoOVMF),
{
    if pure_exists {
        Ok(OvmfSource::Pure)
    } else {
        match env_ovmf {
            Some(p) => Ok(OvmfSource::Env(p)),
            None => {
                if system_code_exists && system_vars_exists {
                    if !has_kvm {
                        Err(QEMUErrors::MissingKVM)
                    } else {
                        Ok(OvmfSource::System)
                    }
                } else {
                    Err(QEMUErrors::NoOVMF)
                }
            },
        }
    }
}

/// The texts of a list of strings.
pub open spec fn texts_of(v: Seq<String>) -> Seq<Seq<char>> {
    v.map_values(|s: String| s@)
}

/// The arguments every run of QEMU starts with.
pub open spec fn base_args() -> Seq<Seq<char>> {
    seq![
        "-s"@,
        "-machine"@,
        "q35"@,
        "-cpu"@,
        "qemu64"@,
        "-smp"@,
        "cores=4"@,
        "-m"@,
        "512M"@,
        "-netdev"@,
        "user,id=mynet0"@,
        "-device"@,
        "pcnet,netdev=mynet0,mac=00:11:22:33:44:55"@,
        "-object"@,
        "filter-dump,id=id,netdev=mynet0,file=fioxa.pcap"@,
    ]
}

/// The arguments that boot the firmware.
pub open spec fn firmware_args(ovmf: OvmfSource) -> Seq<Seq<char>> {
    match ovmf {
        OvmfSource::Pure => seq!["-drive"@, "if=pflash,format=raw,file=ovmf/OVMF-pure-efi.fd"@],
        OvmfSource::Env(p) => seq![
            "-drive"@,
            "if=pflash,format=raw,readonly=on,file="@ + p@ + "/OVMF_CODE.fd"@,
            "-drive"@,
            "if=pflash,format=raw,file=ovmf/VARS.fd"@,
        ],
        OvmfSource::System => seq![
            "-drive"@,
            "if=pflash,format=raw,readonly=on,file=/usr/share/OVMF/OVMF_CODE.fd"@,
            "-drive"@,
            "if=pflash,format=raw,file=ovmf/VARS.fd"@,
        ],
    }
}

/// QEMU's command line: the fixed arguments; KVM when available; the
/// serial port on the terminal with a screen, or no graphics at all; the
/// arguments the user gave after `--`; the firmware; and the two FAT drives.
pub open spec fn qemu_args_spec(
    with_screen: bool,
    kvm: bool,
    extra: Seq<Seq<char>>,
    ovmf: OvmfSource,
) -> Seq<Seq<char>> {
    base_args() + (if kvm {
        seq!["-enable-kvm"@]
    } else {
        Seq::empty()
    }) + (if with_screen {
        seq!["-serial"@, "stdio"@]
    } else {
        seq!["-nographic"@]
    }) + extra + firmware_args(ovmf) + seq![
        "-drive"@,
        "format=raw,file=fat:rw:fioxa"@,
        "-drive"@,
        "format=raw,file=fat:rw:src"@,
    ]
}

fn push_str_arg(args: &mut Vec<String>, s: &str)
    ensures
        texts_of(final(args)@) == texts_of(old(args)@).push(s@),
{
    let ghost before = args@;
    args.push(String::from_str(s));
    assert(texts_of(args@) =~= texts_of(before).push(s@));
}

/// QEMU's command line, as `qemu_args_spec` says.
pub fn qemu_args(with_screen: bool, kvm: bool, extra: &Vec<String>, ovmf: &OvmfSource) -> (args: Vec<String>)
    ensures
        texts_of(args@) == qemu_args_spec(with_screen, kvm, texts_of(extra@), *ovmf),
{
    let mut a: Vec<String> = Vec::new();
    push_str_arg(&mut a, "-s");
    push_str_arg(&mut a, "-machine");
    push_str_arg(&mut a, "q35");
    push_str_arg(&mut a, "-cpu");
    push_str_arg(&mut a, "qemu64");
    push_str_arg(&mut a, "-smp");
    push_str_arg(&mut a, "cores=4");
    push_str_arg(&mut a, "-m");
    push_str_arg(&mut a, "512M");
    push_str_arg(&mut a, "-netdev");
    push_str_arg(&mut a, "user,id=mynet0");
    push_str_arg(&mut a, "-device");
    push_str_arg(&mut a, "pcnet,netdev=mynet0,mac=00:11:22:33:44:55");
    push_str_arg(&mut a, "-object");
    push_str_arg(&mut a, "filter-dump,id=id,netdev=mynet0,file=fioxa.pcap");
    let ghost s1 = texts_of(a@);
    assert(s1 =~= base_args());
    if kvm {
        push_str_arg(&mut a, "-enable-kvm");
    }
    if with_screen {
        push_str_arg(&mut a, "-serial");
        push_str_arg(&mut a, "stdio");
    } else {
        push_str_arg(&mut a, "-nographic");
    }
    let ghost s2 = texts_of(a@);
    assert(s2 =~= base_args() + (if kvm {
        seq!["-enable-kvm"@]
    } else {
        Seq::empty()
    }) + (if with_screen {
        seq!["-serial"@, "stdio"@]
    } else {
        seq!["-nographic"@]
    }));
    let mut i: usize = 0;
    while i < extra.len()
        invariant
            i <= extra@.len(),
            texts_of(a@) == s2 + texts_of(extra@).take(i as int),
        decreases extra.len() - i,
    {
        let ghost before = a@;
        a.push(extra[i].clone());
        assert(texts_of(a@) =~= texts_of(before).push(extra@[i as int]@));
        assert(texts_of(extra@).take(i + 1) =~= texts_of(extra@).take(i as int).push(
            extra@[i as int]@,
        ));
        i += 1;
    }
    assert(texts_of(extra@).take(extra@.len() as int) =~= texts_of(extra@));
    let ghost s3 = texts_of(a@);
    match ovmf {
        OvmfSource::Pure => {
            push_str_arg(&mut a, "-drive");
            push_str_arg(&mut a, "if=pflash,format=raw,file=ovmf/OVMF-pure-efi.fd");
        },
        OvmfSource::Env(p) => {
            push_str_arg(&mut a, "-drive");
            let mut d = String::from_str("if=pflash,format=raw,readonly=on,file=");
            string_push_str(&mut d, p.as_str());
            string_push_str(&mut d, "/OVMF_CODE.fd");
            let ghost before = a@;
            let ghost dv = d@;
            a.push(d);
            assert(texts_of(a@) =~= texts_of(before).push(dv));
            push_str_arg(&mut a, "-drive");
            push_str_arg(&mut a, "if=pflash,format=raw,file=ovmf/VARS.fd");
        },
        OvmfSource::System => {
            push_str_arg(&mut a, "-drive");
            push_str_arg(&mut a, "if=pflash,format=raw,readonly=on,file=/usr/share/OVMF/OVMF_CODE.fd");
            push_str_arg(&mut a, "-drive");
            push_str_arg(&mut a, "if=pflash,format=raw,file=ovmf/VARS.fd");
        },
    }
    assert(texts_of(a@) =~= s3 + firmware_args(*ovmf));
    push_str_arg(&mut a, "-drive");
    push_str_arg(&mut a, "format=raw,file=fat:rw:fioxa");
    push_str_arg(&mut a, "-drive");
    push_str_arg(&mut a, "format=raw,file=fat:rw:src");
    assert(texts_of(a@) =~= qemu_args_spec(with_screen, kvm, texts_of(extra@), *ovmf));
    a
}

/// The arguments after the first `--`, which QEMU gets as they are.
pub open spec fn after_dashes(args: Seq<Seq<char>>) -> Seq<Seq<char>> {
    if exists|i: int| 0 <= i < args.len() && args[i] == "--"@ {
        args.skip(
            (choose|i: int|
                0 <= i < args.len() && args[i] == "--"@ && forall|j: int|
                    0 <= j < i ==> args[j] != "--"@) + 1,
        )
    } else {
        Seq::empty()
    }
}

/// The arguments after the first `--`.
pub fn extra_qemu_args(args: &Vec<String>) -> (extra: Vec<String>)
    ensures
        texts_of(extra@) == after_dashes(texts_of(args@)),
{
    let ghost t = texts_of(args@);
    let n = args.len();
    let mut i: usize = 0;
    let mut found = false;
    while i < n && !found
        invariant
            t == texts_of(args@),
            n == args@.len(),
            i <= n,
            forall|j: int| 0 <= j < i ==> t[j] != "--"@,
            found ==> i < n && t[i as int] == "--"@,
        decreases n - i, (if found {
            0int
        } else {
            1int
        }),
    {
        if args[i] == String::from_str("--") {
            found = true;
        } else {
            i += 1;
        }
    }
    let mut extra: Vec<String> = Vec::new();
    if !found {
        assert(!exists|k: int| 0 <= k < t.len() && t[k] == "--"@);
        assert(texts_of(extra@) =~= Seq::<Seq<char>>::empty());
        return extra;
    }
    let ghost k = choose|k: int|
        0 <= k < t.len() && t[k] == "--"@ && forall|j: int| 0 <= j < k ==> t[j] != "--"@;
    assert(0 <= k < t.len() && t[k] == "--"@ && forall|j: int| 0 <= j < k ==> t[j] != "--"@);
    assert(k == i) by {
        if k < i {
            assert(t[k] != "--"@);
        } else if k > i {
            assert(t[i as int] != "--"@);
        }
    }
    let mut j = i + 1;
    while j < args.len()
        invariant
            t == texts_of(args@),
            i < args@.len(),
            i + 1 <= j <= args@.len(),
            texts_of(extra@) == t.subrange(i + 1, j as int),
        decreases args.len() - j,
    {
        let ghost before = extra@;
        extra.push(args[j].clone());
        assert(texts_of(extra@) =~= texts_of(before).push(t[j as int]));
        assert(t.subrange(i + 1, j + 1) =~= t.subrange(i + 1, j as int).push(t[j as int]));
        j += 1;
    }
    assert(t.subrange(i + 1, t.len() as int) =~= t.skip(i + 1));
    extra
}

/// Whether an argument is given.
pub open spec fn has_arg(args: Seq<Seq<char>>, a: Seq<char>) -> bool {
    exists|i: int| 0 <= i < args.len() && args[i] == a
}

fn any_arg(args: &Vec<String>, a: &str) -> (b: bool)
    ensures
        b == has_arg(texts_of(args@), a@),
{
    let ghost t = texts_of(args@);
    let target = String::from_str(a);
    let mut i: usize = 0;
    while i < args.len()
        invariant
            t == texts_of(args@),
            target@ == a@,
            i <= args@.len(),
            forall|j: int| 0 <= j < i ==> t[j] != a@,
        decreases args.len() - i,
    {
        if args[i] == target {
            assert(t[i as int] == a@);
            return true;
        }
        i += 1;
    }
    false
}

/// What the build tool was asked to do: clean instead of building; build
/// in release mode; and after building, run QEMU with a screen (`qemu`) or
/// without (`qemu-nox`).
#[derive(Clone, Copy, Debug, PartialEq, Eq, Structural)]
pub struct BuilderPlan {
    pub clean: bool,
    pub release: bool,
    pub run_qemu: Option<bool>,
}

/// Reads the build tool's command line.
pub fn builder_plan(args: &Vec<String>) -> (p: BuilderPlan)
    ensures
        p.clean == has_arg(texts_of(args@), "clean"@),
        p.release == has_arg(texts_of(args@), "--release"@),
        p.run_qemu == if has_arg(texts_of(args@), "qemu"@) {
            Some(true)
        } else if has_arg(texts_of(args@), "qemu-nox"@) {
            Some(false)
        } else {
            None
        },
{
    let clean = any_arg(args, "clean");
    let release = any_arg(args, "--release");
    let run_qemu = if any_arg(args, "qemu") {
        Some(true)
    } else if any_arg(args, "qemu-nox") {
        Some(false)
    } else {
        None
    };
    BuilderPlan { clean, release, run_qemu }
}

/// The packages the build tool builds, in order, with where each output
/// goes under the boot folder; the kernel comes last.
pub fn to_build() -> (v: Vec<(&'static str, &'static str)>)
    ensures
        v@.len() == 8,
        v@[0].0@ == "bootloader"@ && v@[0].1@ == "EFI/BOOT/BOOTx64.efi"@,
        v@[1].0@ == "test_elf"@ && v@[1].1@ == "elf.elf"@,
        v@[2].0@ == "amd_pcnet"@ && v@[2].1@ == "amd_pcnet.driver"@,
        v@[3].0@ == "calc"@ && v@[3].1@ == "calc.elf"@,
        v@[4].0@ == "net"@ && v@[4].1@ == "net.elf"@,
        v@[5].0@ == "ps2"@ && v@[5].1@ == "ps2.driver"@,
        v@[6].0@ == "terminal"@ && v@[6].1@ == "terminal.elf"@,
        v@[7].0@ == "kernel"@ && v@[7].1@ == "fioxa.elf"@,
{
    let v = vec![
        ("bootloader", "EFI/BOOT/BOOTx64.efi"),
        ("test_elf", "elf.elf"),
        ("amd_pcnet", "amd_pcnet.driver"),
        ("calc", "calc.elf"),
        ("net", "net.elf"),
        ("ps2", "ps2.driver"),
        ("terminal", "terminal.elf"),
        ("kernel", "fioxa.elf"),
    ];
    v
}

/// What cargo reports while it builds, as far as the build tool reads it:
/// an artifact of a target with its executable, if any; the end of the
/// build and whether it succeeded; or anything else.
pub enum BuildMessage {
    Artifact { target: String, executable: Option<String> },
    Finished { success: bool },
    Other,
}

/// The text of an optional string.
pub open spec fn opt_text(s: Option<String>) -> Option<Seq<char>> {
    match s {
        Some(t) => Some(t@),
        None => None,
    }
}

/// What the build of package `name` comes to, reading cargo's messages in
/// order with `path` the executable last reported for `name`: each artifact
/// of `name` replaces the path (with none when it has no executable); the
/// end of the build gives the path, `MissingExec` without one, or
/// `BuildFailed`; messages that run out give `Incomplete`.
pub open spec fn build_outcome_from(name: Seq<char>, msgs: Seq<BuildMessage>, path: Option<
    Seq<char>,
>) -> Result<Seq<char>, BuildErrors>
    decreases msgs.len(),
{
    if msgs.len() == 0 {
        Err(BuildErrors::Incomplete)
    } else {
        match msgs[0] {
            BuildMessage::Artifact { target, executable } => if target@ == name {
                build_outcome_from(name, msgs.drop_first(), opt_text(executable))
            } else {
                build_outcome_from(name, msgs.drop_first(), path)
            },
            BuildMessage::Finished { success } => if success {
                match path {
                    Some(p) => Ok(p),
                    None => Err(BuildErrors::MissingExec),
                }
            } else {
                Err(BuildErrors::BuildFailed)
            },
            BuildMessage::Other => build_outcome_from(name, msgs.drop_first(), path),
        }
    }
}

/// Reads cargo's messages for the build of package `name` and finds its
/// executable, as `build_outcome_from` says from no path.
pub fn build_outcome(name: &str, msgs: &Vec<BuildMessage>) -> (r: Result<String, BuildErrors>)
    ensures
        match build_outcome_from(name@, msgs@, None) {
            Ok(p) => r matches Ok(s) && s@ == p,
            Err(e) => r == Err::<String, BuildErrors>(e),
        },
{
    let target_name = String::from_str(name);
    let mut path: Option<String> = None;
    let mut i: usize = 0;
    assert(msgs@.skip(0) =~= msgs@);
    while i < msgs.len()
        invariant
            target_name@ == name@,
            i <= msgs@.len(),
            build_outcome_from(name@, msgs@, None) == build_outcome_from(
                name@,
                msgs@.skip(i as int),
                opt_text(path),
            ),
        decreases msgs.len() - i,
    {
        assert(msgs@.skip(i as int).drop_first() =~= msgs@.skip(i + 1));
        match &msgs[i] {
            BuildMessage::Artifact { target, executable } => {
                if *target == target_name {
                    path = match executable {
                        Some(e) => Some(e.clone()),
                        None => None,
                    };
                }
            },
            BuildMessage::Finished { success } => {
                if *success {
                    return match path {
                        Some(p) => Ok(p),
                        None => Err(BuildErrors::MissingExec),
                    };
                } else {
                    return Err(BuildErrors::BuildFailed);
                }
            },
            BuildMessage::Other => {},
        }
        i += 1;
    }
    Err(BuildErrors::Incomplete)
}

} // verus!
