//! What the command line and the environment say: the workspace to show, and where settings are.
use vstd::prelude::*;

use crate::text::{has_prefix, str_eq, strip_prefixes};

verus! {

broadcast use vstd::string::group_string_axioms;

/// Whether an argument is the option that the next argument is the value of.
pub open spec fn is_option(arg: Seq<char>) -> bool {
    arg == "--workspace"@ || arg == "-w"@
}

/// Whether the argument at `i` names the workspace by the option.
pub open spec fn names_workspace(args: Seq<Seq<char>>, i: int) -> bool {
    (is_option(args[i]) && i + 1 < args.len()) || crate::text::starts_with(
        args[i],
        "--workspace="@,
    ) || crate::text::starts_with(args[i], "-w="@)
}

/// The workspace that the argument at `i` names by the option.
pub open spec fn named_at(args: Seq<Seq<char>>, i: int) -> Seq<char> {
    if is_option(args[i]) && i + 1 < args.len() {
        args[i + 1]
    } else if crate::text::starts_with(args[i], "--workspace="@) {
        crate::text::without_prefix(args[i], "--workspace="@)
    } else {
        crate::text::without_prefix(args[i], "-w="@)
    }
}

/// The workspace: the first that is named by the option, or else the first argument without a
/// dash, or else the fallback. The first argument is the program itself.
pub open spec fn workspace_in(args: Seq<Seq<char>>, fallback: Option<Seq<char>>) -> Option<
    Seq<char>,
> {
    let n = args.len() as int;
    let i = crate::seqs::first_where(1, n, |i: int| names_workspace(args, i));
    let j = crate::seqs::first_where(1, n, |j: int| !crate::text::starts_with(args[j], "-"@));
    if i < n {
        Some(named_at(args, i))
    } else if j < n {
        Some(args[j])
    } else {
        fallback
    }
}

/// Parse the workspace name from the command line. `fallback` is the name that the environment
/// gives.
pub fn parse_workspace_from_args(args: &Vec<String>, fallback: Option<String>) -> (r: Option<String>)
    ensures
        crate::text::opt_text(r) == workspace_in(
            crate::text::texts(args@),
            crate::text::opt_text(fallback),
        ),
{
    let ghost texts = crate::text::texts(args@);
    let ghost names = |i: int| names_workspace(texts, i);
    let ghost plain = |j: int| !crate::text::starts_with(texts[j], "-"@);
    let n: usize = args.len();
    let mut positional: Option<usize> = None;
    let mut i: usize = 1;
    proof {
        reveal_strlit("--workspace=");
        reveal_strlit("-w=");
    }
    while i < n
        invariant
            1 <= i,
            n == args@.len(),
            i <= n || i == 1,
            texts == crate::text::texts(args@),
            names == (|i: int| names_workspace(texts, i)),
            plain == (|j: int| !crate::text::starts_with(texts[j], "-"@)),
            forall|k: int| 1 <= k < i ==> !#[trigger] names(k),
            match positional {
                Some(j) => 1 <= j < i && plain(j as int) && forall|k: int|
                    1 <= k < j ==> !#[trigger] plain(k),
                None => forall|k: int| 1 <= k < i ==> !#[trigger] plain(k),
            },
            "--workspace="@.len() > 0,
            "-w="@.len() > 0,
        decreases n - i,
    {
        let arg = args[i].as_str();
        assert(texts[i as int] == arg@);
        let is_flag = str_eq(arg, "--workspace") || str_eq(arg, "-w");
        if is_flag && i < n - 1 {
            proof {
                assert(names(i as int));
                crate::seqs::lemma_first_where_is(1, n as int, names, i as int);
            }
            return Some(args[i + 1].clone());
        }
        if has_prefix(arg, "--workspace=") {
            proof {
                assert(names(i as int));
                crate::seqs::lemma_first_where_is(1, n as int, names, i as int);
            }
            return Some(strip_prefixes(arg, "--workspace="));
        }
        if has_prefix(arg, "-w=") {
            proof {
                assert(names(i as int));
                crate::seqs::lemma_first_where_is(1, n as int, names, i as int);
            }
            return Some(strip_prefixes(arg, "-w="));
        }
        assert(!names(i as int));
        let dashed = has_prefix(arg, "-");
        if !dashed {
            assert(plain(i as int));
            if positional.is_none() {
                positional = Some(i);
            }
        } else {
            assert(!plain(i as int));
        }
        i += 1;
    }
    proof {
        if n >= 1 {
            crate::seqs::lemma_first_where_is(1, n as int, names, n as int);
        }
    }
    match positional {
        Some(j) => {
            proof {
                crate::seqs::lemma_first_where_is(1, n as int, plain, j as int);
            }
            Some(args[j].clone())
        },
        None => {
            proof {
                if n >= 1 {
                    crate::seqs::lemma_first_where_is(1, n as int, plain, n as int);
                }
            }
            fallback
        },
    }
}

/// An option wins over every other argument and over the fallback.
pub proof fn law_option_wins(args: Seq<Seq<char>>, fallback: Option<Seq<char>>, i: int)
    requires
        1 <= i < args.len(),
        names_workspace(args, i),
        forall|k: int| 1 <= k < i ==> !names_workspace(args, k),
    ensures
        workspace_in(args, fallback) == Some(named_at(args, i)),
{
    let names = |i: int| names_workspace(args, i);
    assert forall|k: int| 1 <= k < i implies !#[trigger] names(k) by {}
    assert(names(i));
    crate::seqs::lemma_first_where_is(1, args.len() as int, names, i);
}

// ── Settings ─────────────────────────────────────────────────────────────────

/// The directory of the settings, from what the environment says of the data directory, of the
/// directory for application data and of the user's home.
pub open spec fn data_dir_of(
    data_dir: Option<Seq<char>>,
    app_data: Option<Seq<char>>,
    home: Option<Seq<char>>,
) -> (Seq<char>, bool) {
    match (data_dir, app_data, home) {
        (Some(dir), _, _) => (dir, false),
        (None, Some(dir), _) => (dir, true),
        (None, None, Some(dir)) => (dir + "\\AppData\\Roaming"@, true),
        (None, None, None) => (".\\AppData\\Roaming"@, true),
    }
}

/// The directory of the settings, and whether they are in a directory of their own within it.
pub fn wtd_data_dir(
    data_dir: Option<String>,
    app_data: Option<String>,
    home: Option<String>,
) -> (r: (String, bool))
    ensures
        (r.0@, r.1) == data_dir_of(
            crate::text::opt_text(data_dir),
            crate::text::opt_text(app_data),
            crate::text::opt_text(home),
        ),
{
    if let Some(dir) = data_dir {
        return (dir, false);
    }
    if let Some(dir) = app_data {
        return (dir, true);
    }
    match home {
        Some(dir) => (dir.concat("\\AppData\\Roaming"), true),
        None => (".\\AppData\\Roaming".to_owned(), true),
    }
}

/// How an option names the workspace: by the argument behind `--workspace` or `-w`, or by what follows
/// the equals sign.
pub proof fn law_options_name_the_workspace(args: Seq<Seq<char>>, i: int, name: Seq<char>)
    requires
        1 <= i < args.len(),
    ensures
        (args[i] == "--workspace"@ || args[i] == "-w"@) && i + 1 < args.len() ==> names_workspace(
            args,
            i,
        ) && named_at(args, i) == args[i + 1],
        args[i] == "--workspace="@ + name && !crate::text::starts_with(name, "--workspace="@)
            ==> names_workspace(args, i) && named_at(args, i) == name,
        args[i] == "-w="@ + name && !crate::text::starts_with(name, "-w="@) ==> names_workspace(
            args,
            i,
        ) && named_at(args, i) == name,
{
    reveal_strlit("--workspace");
    reveal_strlit("-w");
    reveal_strlit("--workspace=");
    reveal_strlit("-w=");
    if args[i] == "--workspace="@ + name && !crate::text::starts_with(name, "--workspace="@) {
        crate::text::law_prefixes_come_off("--workspace="@, name);
        assert(args[i][11] == '=');
        assert(args[i][1] == '-');
    }
    if args[i] == "-w="@ + name && !crate::text::starts_with(name, "-w="@) {
        crate::text::law_prefixes_come_off("-w="@, name);
        assert(args[i][2] == '=');
        assert(args[i].len() >= 3);
        assert(args[i][1] == 'w');
        if crate::text::starts_with(args[i], "--workspace="@) {
            assert(args[i].take(12)[1] == '-');
        }
    }
}

/// Without an option the first argument that does not start with a hyphen names the workspace, and
/// without that the fallback does.
pub proof fn law_first_plain_argument_counts(
    args: Seq<Seq<char>>,
    fallback: Option<Seq<char>>,
    j: int,
)
    requires
        1 <= j <= args.len(),
        forall|k: int| 1 <= k < args.len() ==> !#[trigger] names_workspace(args, k),
        forall|k: int| 1 <= k < j ==> (#[trigger] args[k]).len() > 0 && args[k][0] == '-',
        j < args.len() ==> args[j].len() == 0 || args[j][0] != '-',
    ensures
        workspace_in(args, fallback) == (if j < args.len() {
            Some(args[j])
        } else {
            fallback
        }),
{
    reveal_strlit("-");
    let n = args.len() as int;
    let names = |i: int| names_workspace(args, i);
    assert forall|k: int| 1 <= k < n implies !#[trigger] names(k) by {
        assert(!names_workspace(args, k));
    }
    crate::seqs::lemma_first_where_is(1, n, names, n);
    let plain = |j: int| !crate::text::starts_with(args[j], "-"@);
    assert forall|k: int| 1 <= k < j implies !#[trigger] plain(k) by {
        assert(args[k][0] == '-');
        assert(args[k].take(1) =~= "-"@);
    }
    if j < n {
        if crate::text::starts_with(args[j], "-"@) {
            assert(args[j].take(1)[0] == '-');
        }
        assert(plain(j));
    }
    crate::seqs::lemma_first_where_is(1, n, plain, j);
}

/// The directory for settings is the one that was given, or else that of application data, or else
/// the usual one below the home directory. Only where none was given does the application get a
/// directory of its own in it.
pub proof fn law_first_known_directory_counts(
    given: Option<Seq<char>>,
    app_data: Option<Seq<char>>,
    home: Option<Seq<char>>,
)
    ensures
        given is Some ==> data_dir_of(given, app_data, home) == (given->0, false),
        given is None && app_data is Some ==> data_dir_of(given, app_data, home) == (
            app_data->0,
            true,
        ),
        given is None && app_data is None && home is Some ==> data_dir_of(given, app_data, home) == (
            home->0 + "\\AppData\\Roaming"@,
            true,
        ),
        given is None && app_data is None && home is None ==> data_dir_of(given, app_data, home) == (
            ".\\AppData\\Roaming"@,
            true,
        ),
{
}

} // verus!
