//! The runner's configuration and the emulator profile made from it.

use vstd::prelude::*;

verus! {

/// What a manifest may set under `package.metadata.uefi-runner`.
#[derive(Debug)]
pub struct Config {
    pub qemu: Option<String>,
    pub bios: Option<String>,
    pub run_args: Option<Vec<String>>,
    pub test_args: Option<Vec<String>>,
    pub test_success_exit_code: Option<i64>,
    pub test_timeout: Option<u64>,
    pub copy: Vec<(String, String)>,
}

/// The mathematical model of a [`Config`].
pub struct ConfigView {
    pub qemu: Option<Seq<char>>,
    pub bios: Option<Seq<char>>,
    pub run_args: Option<Seq<Seq<char>>>,
    pub test_args: Option<Seq<Seq<char>>>,
    pub test_success_exit_code: Option<i64>,
    pub test_timeout: Option<u64>,
    pub copy: Seq<(Seq<char>, Seq<char>)>,
}

impl View for Config {
    type V = ConfigView;

    open spec fn view(&self) -> ConfigView {
        ConfigView {
            qemu: self.qemu.deep_view(),
            bios: self.bios.deep_view(),
            run_args: self.run_args.deep_view(),
            test_args: self.test_args.deep_view(),
            test_success_exit_code: self.test_success_exit_code,
            test_timeout: self.test_timeout,
            copy: self.copy.deep_view(),
        }
    }
}

impl ConfigView {
    /// The configuration that sets nothing.
    pub open spec fn empty() -> ConfigView {
        ConfigView {
            qemu: None,
            bios: None,
            run_args: None,
            test_args: None,
            test_success_exit_code: None,
            test_timeout: None,
            copy: Seq::empty(),
        }
    }
}

impl Default for Config {
    fn default() -> (config: Config)
        ensures
            config@ == ConfigView::empty(),
    {
        let config = Config {
            qemu: None,
            bios: None,
            run_args: None,
            test_args: None,
            test_success_exit_code: None,
            test_timeout: None,
            copy: Vec::new(),
        };
        assert(config.copy.deep_view() =~= Seq::empty());
        config
    }
}

/// How the emulator is run: the program, its arguments, the exit code that
/// counts as a passed test and the seconds a test run may take.
#[derive(Debug)]
pub struct Profile {
    pub qemu: String,
    pub args: Vec<String>,
    pub test_success_exit_code: i64,
    pub test_timeout: u64,
}

/// The mathematical model of a [`Profile`].
pub struct ProfileView {
    pub qemu: Seq<char>,
    pub args: Seq<Seq<char>>,
    pub test_success_exit_code: i64,
    pub test_timeout: u64,
}

impl View for Profile {
    type V = ProfileView;

    open spec fn view(&self) -> ProfileView {
        ProfileView {
            qemu: self.qemu@,
            args: self.args.deep_view(),
            test_success_exit_code: self.test_success_exit_code,
            test_timeout: self.test_timeout,
        }
    }
}

/// The arguments that the configuration itself gives for the kind of run.
pub open spec fn base_args(config: ConfigView, is_test: bool) -> Seq<Seq<char>> {
    let chosen = if is_test {
        config.test_args
    } else {
        config.run_args
    };
    match chosen {
        Some(args) => args,
        None => Seq::empty(),
    }
}

/// The firmware image that the emulator boots with.
pub open spec fn firmware(config: ConfigView) -> Seq<char> {
    match config.bios {
        Some(bios) => bios,
        None => "OVMF.fd"@,
    }
}

/// The four arguments that select the firmware and attach the boot volume.
pub open spec fn firmware_and_drive(config: ConfigView, esp: Seq<char>) -> Seq<Seq<char>> {
    seq!["-bios"@, firmware(config), "-drive"@, "format=raw,file=fat:rw:"@ + esp]
}

/// The profile that a configuration resolves to, for a test run or a normal
/// one, with the boot volume staged at `esp`.
pub open spec fn profile_of(config: ConfigView, is_test: bool, esp: Seq<char>) -> ProfileView {
    ProfileView {
        qemu: match config.qemu {
            Some(qemu) => qemu,
            None => "qemu-system-x86_64"@,
        },
        args: base_args(config, is_test) + firmware_and_drive(config, esp),
        test_success_exit_code: match config.test_success_exit_code {
            Some(code) => code,
            None => 0,
        },
        test_timeout: match config.test_timeout {
            Some(seconds) => seconds,
            None => 300,
        },
    }
}

/// The parts as one text, with the separator between each two of them.
pub open spec fn joined(parts: Seq<Seq<char>>, separator: Seq<char>) -> Seq<char>
    decreases parts.len(),
{
    if parts.len() == 0 {
        Seq::empty()
    } else if parts.len() == 1 {
        parts[0]
    } else {
        joined(parts.drop_last(), separator) + separator + parts.last()
    }
}

/// The command line of a profile: the program, a space, and the arguments
/// with a space between each two.
pub open spec fn command_line_of(profile: ProfileView) -> Seq<char> {
    profile.qemu + " "@ + joined(profile.args, " "@)
}

impl Profile {
    /// The command line that the profile stands for, as it is shown to the
    /// user before the emulator starts.
    pub fn command_line(&self) -> (line: String)
        ensures
            line@ == command_line_of(self@),
    {
        let ghost args = self.args.deep_view();
        let mut line = self.qemu.clone();
        line.append(" ");
        let mut i: usize = 0;
        assert(args.take(0) =~= Seq::<Seq<char>>::empty());
        while i < self.args.len()
            invariant
                i <= self.args.len(),
                args == self.args.deep_view(),
                line@ == self.qemu@ + " "@ + joined(args.take(i as int), " "@),
            decreases self.args.len() - i,
        {
            let ghost before = args.take(i as int);
            let ghost now = args.take(i + 1);
            assert(now.drop_last() =~= before);
            assert(now.last() == self.args@[i as int]@);
            if i > 0 {
                line.append(" ");
            }
            line.append(self.args[i].as_str());
            assert(line@ =~= self.qemu@ + " "@ + joined(now, " "@));
            i += 1;
        }
        assert(args.take(i as int) =~= args);
        line
    }
}

impl Config {
    /// Resolves the configuration into the profile of one run.
    pub fn build_profile(self, is_test: bool, esp: &str) -> (profile: Profile)
        ensures
            profile@ == profile_of(self@, is_test, esp@),
    {
        let ghost before = self@;
        let qemu = match self.qemu {
            Some(qemu) => qemu,
            None => String::from_str("qemu-system-x86_64"),
        };
        let bios = match self.bios {
            Some(bios) => bios,
            None => String::from_str("OVMF.fd"),
        };
        let chosen = if is_test {
            self.test_args
        } else {
            self.run_args
        };
        let mut args = match chosen {
            Some(args) => args,
            None => Vec::new(),
        };
        let ghost base = args.deep_view();
        assert(base =~= base_args(before, is_test));
        args.push(String::from_str("-bios"));
        args.push(bios);
        args.push(String::from_str("-drive"));
        args.push(String::from_str("format=raw,file=fat:rw:").concat(esp));
        assert(args.deep_view() =~= base + firmware_and_drive(before, esp@));
        Profile {
            qemu,
            args,
            test_success_exit_code: match self.test_success_exit_code {
                Some(code) => code,
                None => 0,
            },
            test_timeout: match self.test_timeout {
                Some(seconds) => seconds,
                None => 300,
            },
        }
    }
}

/// The profile of a configuration that sets nothing: the standard emulator,
/// no arguments but the firmware `OVMF.fd` and the drive, success code 0 and
/// a timeout of 300 seconds.
pub proof fn lemma_default_profile(is_test: bool, esp: Seq<char>)
    ensures
        profile_of(ConfigView::empty(), is_test, esp) == (ProfileView {
            qemu: "qemu-system-x86_64"@,
            args: seq!["-bios"@, "OVMF.fd"@, "-drive"@, "format=raw,file=fat:rw:"@ + esp],
            test_success_exit_code: 0,
            test_timeout: 300,
        }),
{
    let args = profile_of(ConfigView::empty(), is_test, esp).args;
    assert(args =~= seq!["-bios"@, "OVMF.fd"@, "-drive"@, "format=raw,file=fat:rw:"@ + esp]);
}

/// Whatever arguments the configuration gives, the emulator's arguments are
/// those followed by the firmware and the drive: the four come last, in
/// their order, and nothing stands between or after them.
pub proof fn lemma_firmware_and_drive_come_last(config: ConfigView, is_test: bool, esp: Seq<char>)
    ensures
        ({
            let base = base_args(config, is_test);
            let args = profile_of(config, is_test, esp).args;
            &&& args.len() == base.len() + 4
            &&& args.subrange(0, base.len() as int) == base
            &&& args.subrange(base.len() as int, args.len() as int) == firmware_and_drive(
                config,
                esp,
            )
            &&& args[args.len() - 4] == "-bios"@
            &&& args[args.len() - 3] == firmware(config)
            &&& args[args.len() - 2] == "-drive"@
            &&& args[args.len() - 1] == "format=raw,file=fat:rw:"@ + esp
        }),
{
    let base = base_args(config, is_test);
    let args = profile_of(config, is_test, esp).args;
    assert(args.subrange(0, base.len() as int) =~= base);
    assert(args.subrange(base.len() as int, args.len() as int) =~= firmware_and_drive(config, esp));
}

} // verus!
