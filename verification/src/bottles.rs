//! The optional wine-prefix integration: deciding which command-line
//! interface to use from the host's probe results, parsing the bottle list
//! out of the tool's text output, and building the invocation that runs an
//! executable inside a bottle.

use vstd::prelude::*;

use crate::config::spec_split_lines;
use crate::config::spec_str_views;
use crate::config::split_lines;
use crate::records::IntegrationOptions;
use crate::records::IntegrationStatus;
use crate::text::chars_string;
use crate::text::spec_trim;
use crate::text::spec_trim_char_start;
use crate::text::str_chars;
use crate::text::trim_chars;

verus! {

/// The command-line interface of the wine-prefix manager: a program and the
/// fixed argument prefix that reaches its own command.
pub struct BottlesCli {
    /// The program to execute.
    pub program: String,
    /// The arguments that precede every command.
    pub args_prefix: Vec<String>,
}

impl BottlesCli {
    /// A command-line interface description.
    pub fn new(program: String, args_prefix: Vec<String>) -> (r: BottlesCli)
        ensures
            r.program == program,
            r.args_prefix == args_prefix,
    {
        BottlesCli { program, args_prefix }
    }
}

/// The wine-prefix integration rules.
pub struct BottlesService;

impl BottlesService {
    /// Chooses the command-line interface from the host's probe results:
    /// the sandboxed desktop install is preferred, then the bare tool on
    /// the path; with neither there is none.
    pub fn detect_cli_sync(flatpak_installed: bool, cli_available: bool) -> (r: Option<BottlesCli>)
        ensures
            flatpak_installed ==> r is Some && {
                let c = r->0;
                &&& c.program@ == "flatpak"@
                &&& spec_str_views(c.args_prefix@) == seq![
                    "run"@,
                    "--command=bottles-cli"@,
                    "com.usebottles.bottles"@,
                ]
            },
            !flatpak_installed && cli_available ==> r is Some && {
                let c = r->0;
                &&& c.program@ == "bottles-cli"@
                &&& c.args_prefix@.len() == 0
            },
            !flatpak_installed && !cli_available ==> r is None,
    {
        if flatpak_installed {
            let mut prefix: Vec<String> = Vec::new();
            prefix.push("run".to_owned());
            prefix.push("--command=bottles-cli".to_owned());
            prefix.push("com.usebottles.bottles".to_owned());
            assert(spec_str_views(prefix@) =~= seq![
                "run"@,
                "--command=bottles-cli"@,
                "com.usebottles.bottles"@,
            ]);
            Some(BottlesCli::new("flatpak".to_owned(), prefix))
        } else if cli_available {
            Some(BottlesCli::new("bottles-cli".to_owned(), Vec::new()))
        } else {
            None
        }
    }

    /// What one line of the tool's text output contributes: a name for a
    /// line starting (after trimming) with a dash or an asterisk, with the
    /// marker run stripped and the rest trimmed; nothing otherwise.
    pub open spec fn spec_bottles_line(line: Seq<char>) -> Option<Seq<char>> {
        let t = spec_trim(line);
        if t.len() == 0 {
            None
        } else if t[0] == '-' {
            Some(spec_trim(spec_trim_char_start(t, '-')))
        } else if t[0] == '*' {
            Some(spec_trim(spec_trim_char_start(t, '*')))
        } else {
            None
        }
    }

    /// The names all lines contribute, in order.
    pub open spec fn spec_bottles_names(lines: Seq<Seq<char>>) -> Seq<Seq<char>>
        decreases lines.len(),
    {
        if lines.len() == 0 {
            Seq::empty()
        } else {
            match Self::spec_bottles_line(lines[0]) {
                Some(n) => seq![n] + Self::spec_bottles_names(lines.skip(1)),
                None => Self::spec_bottles_names(lines.skip(1)),
            }
        }
    }

    /// Parses the tool's plain-text bottle listing: each line that starts
    /// with a dash or asterisk marker names one bottle; other lines are
    /// ignored.
    pub fn parse_bottles_text(raw: &str) -> (r: Vec<String>)
        ensures
            spec_str_views(r@) == Self::spec_bottles_names(spec_split_lines(raw@)),
    {
        let v = str_chars(raw);
        let lines = split_lines(&v);
        let ghost lviews = lines@.map_values(|x: Vec<char>| x@);
        let mut out: Vec<String> = Vec::new();
        let mut i: usize = 0;
        assert(spec_str_views(out@) =~= Seq::<Seq<char>>::empty());
        assert(lviews.skip(0) =~= lviews);
        while i < lines.len()
            invariant
                0 <= i <= lines@.len(),
                lviews == lines@.map_values(|x: Vec<char>| x@),
                lviews == spec_split_lines(raw@),
                Self::spec_bottles_names(lviews) == spec_str_views(out@)
                    + Self::spec_bottles_names(lviews.skip(i as int)),
            decreases lines@.len() - i,
        {
            assert(lviews.skip(i as int)[0] == lviews[i as int]);
            assert(lviews.skip(i as int).skip(1) =~= lviews.skip(i + 1));
            let t = trim_chars(&lines[i]);
            if t.len() == 0 {
                assert(Self::spec_bottles_line(lviews[i as int]) is None);
            } else if t[0] == '-' {
                let stripped = crate::text::trim_char_start(&t, '-');
                let name = trim_chars(&stripped);
                let ghost before = spec_str_views(out@);
                let ghost nv = name@;
                out.push(chars_string(&name));
                assert(spec_str_views(out@) =~= before.push(nv));
                assert(before + (seq![nv] + Self::spec_bottles_names(lviews.skip(i + 1)))
                    =~= spec_str_views(out@) + Self::spec_bottles_names(lviews.skip(i + 1)));
            } else if t[0] == '*' {
                let stripped = crate::text::trim_char_start(&t, '*');
                let name = trim_chars(&stripped);
                let ghost before = spec_str_views(out@);
                let ghost nv = name@;
                out.push(chars_string(&name));
                assert(spec_str_views(out@) =~= before.push(nv));
                assert(before + (seq![nv] + Self::spec_bottles_names(lviews.skip(i + 1)))
                    =~= spec_str_views(out@) + Self::spec_bottles_names(lviews.skip(i + 1)));
            } else {
                assert(Self::spec_bottles_line(lviews[i as int]) is None);
            }
            i = i + 1;
        }
        assert(lviews.skip(lines@.len() as int) =~= Seq::<Seq<char>>::empty());
        assert(spec_str_views(out@) + Seq::<Seq<char>>::empty() =~= spec_str_views(out@));
        out
    }

    /// Builds the invocation that runs an executable inside a bottle: the
    /// interface's argument prefix, the run command with `-e` for an
    /// absolute executable path and `-p` for a program name, the bottle,
    /// and the extra arguments after a `--` separator when there are any.
    pub fn build_run_invocation(
        cli: &BottlesCli,
        bottle: &str,
        exe_path: &str,
        args: &Vec<String>,
    ) -> (r: (String, Vec<String>))
        ensures
            r.0 == cli.program,
            spec_str_views(r.1@) == spec_str_views(cli.args_prefix@) + seq![
                "run"@,
                (if exe_path@.len() > 0 && exe_path@[0] == '/' {
                    "-e"@
                } else {
                    "-p"@
                }),
                exe_path@,
                "-b"@,
                bottle@,
            ] + (if args@.len() > 0 {
                seq!["--"@] + spec_str_views(args@)
            } else {
                Seq::<Seq<char>>::empty()
            }),
    {
        let mut argv = crate::launch::clone_strings(&cli.args_prefix);
        let ghost prefix = spec_str_views(cli.args_prefix@);
        argv.push("run".to_owned());
        let ev = str_chars(exe_path);
        if ev.len() > 0 && ev[0] == '/' {
            argv.push("-e".to_owned());
        } else {
            argv.push("-p".to_owned());
        }
        argv.push(exe_path.to_owned());
        argv.push("-b".to_owned());
        argv.push(bottle.to_owned());
        let ghost mid = spec_str_views(argv@);
        assert(mid =~= prefix + seq![
            "run"@,
            (if exe_path@.len() > 0 && exe_path@[0] == '/' {
                "-e"@
            } else {
                "-p"@
            }),
            exe_path@,
            "-b"@,
            bottle@,
        ]);
        if args.len() > 0 {
            argv.push("--".to_owned());
            let mut i: usize = 0;
            while i < args.len()
                invariant
                    0 <= i <= args@.len(),
                    spec_str_views(argv@) =~= mid + seq!["--"@] + spec_str_views(
                        args@.take(i as int),
                    ),
                decreases args@.len() - i,
            {
                let ghost before = spec_str_views(argv@);
                argv.push(args[i].clone());
                assert(spec_str_views(argv@) =~= before.push(args@[i as int]@));
                assert(spec_str_views(args@.take(i + 1)) =~= spec_str_views(
                    args@.take(i as int),
                ).push(args@[i as int]@));
                i = i + 1;
            }
            assert(args@.take(args@.len() as int) =~= args@);
            assert(spec_str_views(argv@) =~= mid + (seq!["--"@] + spec_str_views(args@)));
        } else {
            assert(spec_str_views(argv@) =~= mid + Seq::<Seq<char>>::empty());
        }
        (cli.program.clone(), argv)
    }
}

/// Assembles the integration status of the wine-prefix manager from the
/// host's probe and settings: the integration is enabled only when both the
/// stored setting says so and the tool is installed.
pub fn build_bottles_status(
    available: bool,
    installed: bool,
    enabled_setting: bool,
    bottles: Vec<String>,
    default_bottle: Option<String>,
) -> (r: IntegrationStatus)
    ensures
        r.key@ == "bottles"@,
        r.available == available,
        r.enabled == (enabled_setting && installed),
        r.options is Some,
        r.options->0.installed == Some(installed),
        r.options->0.bottles == Some(bottles),
        r.options->0.default_bottle == default_bottle,
{
    IntegrationStatus {
        key: "bottles".to_owned(),
        available,
        enabled: enabled_setting && installed,
        options: Some(
            IntegrationOptions { installed: Some(installed), bottles: Some(bottles), default_bottle },
        ),
    }
}

} // verus!
