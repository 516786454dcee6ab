//! Run labels: the filename-safe slug that names a run directory, taken from
//! an explicit `--name` or derived from the child command.
use vstd::prelude::*;

use crate::text::{ascii_alphanumeric, ascii_lower, ascii_lower_seq, contains_run, opt_str_view, opt_string_view, string_views, is_ascii_alnum, is_ascii_digit, is_ascii_lower, is_ascii_upper, to_ascii_lower};

verus! {

/// The longest label, in characters.
pub const MAX_LABEL_CHARS: usize = 48;

/// One step of slugging: an ASCII letter or digit is kept in lowercase, any
/// other character becomes a dash unless the slug already ends with one.
pub open spec fn slug_step(acc: Seq<char>, c: char) -> Seq<char> {
    if is_ascii_alnum(c) {
        acc.push(ascii_lower(c))
    } else if acc.len() > 0 && acc.last() == '-' {
        acc
    } else {
        acc.push('-')
    }
}

/// The slug of `s`: `slug_step` applied to each character in turn.
pub open spec fn slug(s: Seq<char>) -> Seq<char>
    decreases s.len(),
{
    if s.len() == 0 {
        Seq::empty()
    } else {
        slug_step(slug(s.drop_last()), s.last())
    }
}

/// `s` without its leading dashes.
pub open spec fn trim_leading_dashes(s: Seq<char>) -> Seq<char>
    decreases s.len(),
{
    if s.len() > 0 && s[0] == '-' {
        trim_leading_dashes(s.drop_first())
    } else {
        s
    }
}

/// `s` without its trailing dashes.
pub open spec fn trim_trailing_dashes(s: Seq<char>) -> Seq<char>
    decreases s.len(),
{
    if s.len() > 0 && s.last() == '-' {
        trim_trailing_dashes(s.drop_last())
    } else {
        s
    }
}

/// `s` without dashes at either end.
pub open spec fn trim_dashes(s: Seq<char>) -> Seq<char> {
    trim_trailing_dashes(trim_leading_dashes(s))
}

/// The first `MAX_LABEL_CHARS` characters of `s`.
pub open spec fn truncated(s: Seq<char>) -> Seq<char> {
    if s.len() <= MAX_LABEL_CHARS {
        s
    } else {
        s.take(MAX_LABEL_CHARS as int)
    }
}

/// The sanitized label of `s`: its slug, trimmed of dashes, then truncated.
pub open spec fn sanitized(s: Seq<char>) -> Seq<char> {
    truncated(trim_dashes(slug(s)))
}

/// A character that a label may hold: a lowercase ASCII letter, a digit or a
/// dash.
pub open spec fn is_label_char(c: char) -> bool {
    is_ascii_lower(c) || is_ascii_digit(c) || c == '-'
}

/// Every character of `s` is a label character.
pub open spec fn all_label_chars(s: Seq<char>) -> bool {
    forall|i: int| 0 <= i < s.len() ==> is_label_char(#[trigger] s[i])
}

/// No two dashes stand next to each other in `s`.
pub open spec fn no_double_dash(s: Seq<char>) -> bool {
    forall|i: int| 0 <= i && i + 1 < s.len() ==> !(#[trigger] s[i] == '-' && s[i + 1] == '-')
}

/// The final component of a path, as `std::path::Path::file_name` gives it
/// and read back as text.
pub uninterp spec fn path_file_name(path: Seq<char>) -> Option<Seq<char>>;

/// A path that is one plain name: not empty, not `.` or `..`, and free of
/// the characters that separate or prefix path components (`/`, and on
/// Windows also `\\` and `:`).
pub open spec fn is_single_name(path: Seq<char>) -> bool {
    &&& path.len() > 0
    &&& path != seq!['.']
    &&& path != seq!['.', '.']
    &&& forall|i: int|
        0 <= i < path.len() ==> #[trigger] path[i] != '/' && path[i] != '\\' && path[i] != ':'
}

/// Calls `std::path::Path::file_name` on `path` and reads the component back
/// as text. The contract claims that the result is the named final component
/// of `path` (a function of the path alone), and, as std documents, that a
/// path made of one plain name is its own final component. What the final
/// component of any other path is, is left to std.
#[verifier::external_body]
fn file_name_text(path: &str) -> (r: Option<String>)
    ensures
        match r {
            Some(name) => path_file_name(path@) == Some(name@),
            None => path_file_name(path@) is None,
        },
        is_single_name(path@) ==> r is Some && r->0@ == path@,
{
    match std::path::Path::new(path).file_name() {
        Some(name) => match name.to_str() {
            Some(text) => Some(text.to_string()),
            None => None,
        },
        None => None,
    }
}

/// The word that marks a Python interpreter.
pub open spec fn python_word() -> Seq<char> {
    seq!['p', 'y', 't', 'h', 'o', 'n']
}

/// The flag that passes inline code to Python.
pub open spec fn inline_code_flag() -> Seq<char> {
    seq!['-', 'c']
}

/// The file name of a command line's program, as `Path::file_name` gives
/// it; none for an empty command line.
pub open spec fn program_file_name(argv: Seq<Seq<char>>) -> Option<Seq<char>> {
    if argv.len() > 0 {
        path_file_name(argv[0])
    } else {
        None
    }
}

/// A program file name that, in ASCII lowercase, contains `python`.
pub open spec fn names_python(file_name: Option<Seq<char>>) -> bool {
    file_name is Some && contains_run(ascii_lower_seq(file_name->0), python_word())
}

/// The argument that follows the first `-c` at or after position `from`
/// (pairs of neighbouring arguments are scanned left to right).
pub open spec fn value_after_flag(argv: Seq<Seq<char>>, from: int) -> Option<Seq<char>>
    decreases argv.len() - from,
{
    if from < 0 || from + 1 >= argv.len() {
        None
    } else if argv[from] == inline_code_flag() {
        Some(argv[from + 1])
    } else {
        value_after_flag(argv, from + 1)
    }
}

/// The inline code of a command line whose program has the file name
/// `file_name`: the argument after the first `-c`, when that name marks a
/// Python interpreter.
pub open spec fn inline_code_given(file_name: Option<Seq<char>>, argv: Seq<Seq<char>>) -> Option<
    Seq<char>,
> {
    if names_python(file_name) {
        value_after_flag(argv, 0)
    } else {
        None
    }
}

/// The inline code of a Python command line.
pub open spec fn inline_code(argv: Seq<Seq<char>>) -> Option<Seq<char>> {
    inline_code_given(program_file_name(argv), argv)
}

/// The label of a command line whose program has the file name
/// `file_name`: that name sanitized (`command` when there is none), joined by
/// a dash with the sanitized inline code of a Python `-c` run when that is not
/// empty, then truncated.
pub open spec fn command_label_given(file_name: Option<Seq<char>>, argv: Seq<Seq<char>>) -> Seq<
    char,
> {
    let program: Seq<char> = match file_name {
        Some(n) => n,
        None => "command"@,
    };
    let command = sanitized(program);
    match inline_code_given(file_name, argv) {
        Some(code) => if sanitized(code).len() > 0 {
            truncated(command + seq!['-'] + sanitized(code))
        } else {
            command
        },
        None => command,
    }
}

/// The label of a command line.
pub open spec fn command_label_of(argv: Seq<Seq<char>>) -> Seq<char> {
    command_label_given(program_file_name(argv), argv)
}

/// The program of `argv` is one plain name, and so is its own file name.
pub open spec fn plain_program(argv: Seq<String>) -> bool {
    argv.len() > 0 && is_single_name(argv[0]@)
}

/// The label of a run: the sanitized explicit name if there is one, else the
/// command line's label; `run` when that comes out empty.
pub open spec fn run_label_of(name: Option<Seq<char>>, argv: Seq<Seq<char>>) -> Seq<char> {
    let label = match name {
        Some(n) => sanitized(n),
        None => command_label_of(argv),
    };
    if label.len() == 0 {
        "run"@
    } else {
        label
    }
}

/// Every run label is a safe file name: one to `MAX_LABEL_CHARS` lowercase
/// ASCII letters, digits and dashes.
pub proof fn lemma_run_label_shape(name: Option<Seq<char>>, argv: Seq<Seq<char>>)
    ensures
        all_label_chars(run_label_of(name, argv)),
        1 <= run_label_of(name, argv).len() <= MAX_LABEL_CHARS,
        no_double_dash(run_label_of(name, argv)),
        run_label_of(name, argv)[0] != '-',
{
    lemma_command_label_shape(program_file_name(argv), argv);
    let program: Seq<char> = match program_file_name(argv) {
        Some(n) => n,
        None => "command"@,
    };
    lemma_sanitized_shape(program);
    match name {
        Some(n) => lemma_sanitized_shape(n),
        None => {},
    }
    match inline_code(argv) {
        Some(code) => {
            lemma_sanitized_shape(code);
            let command = sanitized(program);
            let joined = command + seq!['-'] + sanitized(code);
            assert forall|i: int| 0 <= i < joined.len() implies is_label_char(#[trigger] joined[i]) by {
                if i < command.len() {
                    assert(joined[i] == command[i]);
                } else if i > command.len() {
                    assert(joined[i] == sanitized(code)[i - command.len() - 1]);
                }
            }
            let t = truncated(joined);
            assert forall|i: int| 0 <= i < t.len() implies is_label_char(#[trigger] t[i]) by {
                assert(t[i] == joined[i]);
            }
        },
        None => {},
    }
    reveal_strlit("run");
    let r = run_label_of(name, argv);
    if r == "run"@ {
        assert(r[0] == 'r' && r[1] == 'u' && r[2] == 'n');
        assert forall|i: int| 0 <= i < r.len() implies is_label_char(#[trigger] r[i]) by {
            assert(i == 0 || i == 1 || i == 2);
        }
        assert forall|i: int| 0 <= i && i + 1 < r.len() implies !(#[trigger] r[i] == '-' && r[i
            + 1] == '-') by {
            assert(i == 0 || i == 1);
        }
    }
}

/// Whether `s` is exactly `-c`.
fn is_inline_code_flag(s: &str) -> (r: bool)
    ensures
        r == (s@ == inline_code_flag()),
{
    if s.unicode_len() != 2 {
        return false;
    }
    let a = s.get_char(0);
    let b = s.get_char(1);
    if a == '-' && b == 'c' {
        assert(s@ =~= inline_code_flag());
        true
    } else {
        assert(s@[0] == a && s@[1] == b);
        false
    }
}

/// Whether `name`, in ASCII lowercase, contains `python`.
fn mentions_python(name: &str) -> (r: bool)
    ensures
        r == contains_run(ascii_lower_seq(name@), python_word()),
{
    let mut lower: Vec<char> = Vec::new();
    for c in it: name.chars()
        invariant
            it.seq() == name@,
            lower@ == ascii_lower_seq(name@.take(it.index() as int)),
    {
        proof {
            assert(ascii_lower_seq(name@.take(it.index() + 1)) =~= ascii_lower_seq(
                name@.take(it.index() as int),
            ).push(ascii_lower(c)));
        }
        lower.push(to_ascii_lower(c));
    }
    assert(name@.take(name@.len() as int) =~= name@);
    let ghost hay = ascii_lower_seq(name@);
    let n = lower.len();
    let mut i: usize = 0;
    if n < 6 {
        assert forall|j: int|
            0 <= j && j + python_word().len() <= hay.len() implies #[trigger] hay.subrange(
            j,
            j + python_word().len(),
        ) != python_word() by {}
        return false;
    }
    while i <= n - 6
        invariant
            n >= 6,
            hay == ascii_lower_seq(name@),
            lower@ == hay,
            n == hay.len(),
            i <= n,
            forall|j: int| 0 <= j < i ==> #[trigger] hay.subrange(j, j + 6) != python_word(),
        decreases n - i,
    {
        if lower[i] == 'p' && lower[i + 1] == 'y' && lower[i + 2] == 't' && lower[i + 3] == 'h'
            && lower[i + 4] == 'o' && lower[i + 5] == 'n' {
            assert(hay.subrange(i as int, i + python_word().len()) =~= python_word());
            assert(contains_run(hay, python_word()));
            return true;
        }
        proof {
            let w = hay.subrange(i as int, i + 6);
            if w == python_word() {
                assert(w[0] == lower@[i as int] && w[1] == lower@[i + 1] && w[2] == lower@[i + 2]
                    && w[3] == lower@[i + 3] && w[4] == lower@[i + 4] && w[5] == lower@[i + 5]);
            }
        }
        i = i + 1;
    }
    assert forall|j: int|
        0 <= j && j + python_word().len() <= hay.len() implies #[trigger] hay.subrange(
        j,
        j + python_word().len(),
    ) != python_word() by {
        assert(j < i);
    }
    false
}

/// The inline code of a command line whose program has the file name
/// `file_name`: the argument that follows the first `-c`, when that name
/// contains `python` (in any ASCII case).
pub fn python_inline_code_with<'a>(file_name: Option<&str>, argv: &'a [String]) -> (r: Option<
    &'a str,
>)
    ensures
        opt_str_view(r) == inline_code_given(opt_str_view(file_name), string_views(argv@)),
{
    let ghost args = string_views(argv@);
    let ghost fname = opt_str_view(file_name);
    let program = match file_name {
        Some(name) => name,
        None => {
            return None;
        },
    };
    if !mentions_python(program) {
        return None;
    }
    assert(names_python(fname));
    let n = argv.len();
    if n == 0 {
        return None;
    }
    let mut i: usize = 0;
    while i < n - 1
        invariant
            n >= 1,
            n == argv@.len(),
            args == string_views(argv@),
            fname == opt_str_view(file_name),
            names_python(fname),
            value_after_flag(args, 0) == value_after_flag(args, i as int),
        decreases n - i,
    {
        assert(args[i as int] == argv@[i as int]@);
        assert(args[i + 1] == argv@[i + 1]@);
        if is_inline_code_flag(argv[i].as_str()) {
            let code = argv[i + 1].as_str();
            assert(args.len() == n);
            assert(value_after_flag(args, i as int) == Some(args[i + 1]));
            assert(code@ == args[i + 1]);
            return Some(code);
        }
        i = i + 1;
    }
    None
}

/// The file name of the program of `argv`.
fn program_file_name_text(argv: &[String]) -> (r: Option<String>)
    ensures
        opt_string_view(r) == program_file_name(string_views(argv@)),
        plain_program(argv@) ==> program_file_name(string_views(argv@)) == Some(argv@[0]@),
{
    assert(argv@.len() > 0 ==> string_views(argv@)[0] == argv@[0]@);
    if argv.len() > 0 {
        file_name_text(argv[0].as_str())
    } else {
        None
    }
}

/// The inline code of a Python `-c` command line: the argument that follows
/// the first `-c`, when the program's file name contains `python` (in any
/// ASCII case). A program given by a plain name is its own file name.
pub fn python_inline_code(argv: &[String]) -> (r: Option<&str>)
    ensures
        opt_str_view(r) == inline_code(string_views(argv@)),
        plain_program(argv@) ==> program_file_name(string_views(argv@)) == Some(argv@[0]@),
{
    let file_name = program_file_name_text(argv);
    let name = match &file_name {
        Some(n) => Some(n.as_str()),
        None => None,
    };
    python_inline_code_with(name, argv)
}

/// The label of a command line whose program has the file name
/// `file_name`: that name sanitized (`command` when there is none), joined
/// with the sanitized inline code of a Python `-c` run.
pub fn command_label_with(file_name: Option<&str>, argv: &[String]) -> (r: String)
    ensures
        r@ == command_label_given(opt_str_view(file_name), string_views(argv@)),
        no_double_dash(r@),
        r@.len() > 0 ==> r@[0] != '-',
{
    proof {
        lemma_command_label_shape(opt_str_view(file_name), string_views(argv@));
    }
    let program = match file_name {
        Some(name) => name.to_owned(),
        None => "command".to_owned(),
    };
    let command = sanitize_label(program.as_str());
    match python_inline_code_with(file_name, argv) {
        Some(code) => {
            let code = sanitize_label(code);
            if !code.as_str().is_empty() {
                let mut joined = command;
                joined.push('-');
                joined.append(code.as_str());
                return truncate_label(joined.as_str());
            }
            command
        },
        None => command,
    }
}

/// The label of a command line: the program's sanitized file name, joined
/// with the sanitized inline code of a Python `-c` run. A program given by a
/// plain name is its own file name.
pub fn command_label(argv: &[String]) -> (r: String)
    ensures
        r@ == command_label_of(string_views(argv@)),
        no_double_dash(r@),
        r@.len() > 0 ==> r@[0] != '-',
        plain_program(argv@) ==> program_file_name(string_views(argv@)) == Some(argv@[0]@),
{
    let file_name = program_file_name_text(argv);
    let name = match &file_name {
        Some(n) => Some(n.as_str()),
        None => None,
    };
    command_label_with(name, argv)
}

/// The label of a run: the explicit name, sanitized, or else the command
/// line's label; `run` when either comes out empty. Every label is a safe
/// file name: one to `MAX_LABEL_CHARS` lowercase ASCII letters, digits and
/// dashes.
pub fn run_label(name: Option<&str>, argv: &[String]) -> (r: String)
    ensures
        r@ == run_label_of(opt_str_view(name), string_views(argv@)),
        all_label_chars(r@),
        1 <= r@.len() <= MAX_LABEL_CHARS,
        no_double_dash(r@),
        r@[0] != '-',
        name is None && plain_program(argv@) ==> program_file_name(string_views(argv@)) == Some(
            argv@[0]@,
        ),
        name matches Some(n) ==> (has_alnum(n@) ==> r@ == sanitized(n@)),
{
    proof {
        if let Some(n) = name {
            lemma_explicit_name_wins(n@, string_views(argv@), string_views(argv@));
        }
    }
    proof {
        lemma_run_label_shape(opt_str_view(name), string_views(argv@));
    }
    let label = match name {
        Some(n) => sanitize_label(n),
        None => command_label(argv),
    };
    if label.as_str().is_empty() {
        let r = "run".to_owned();
        proof {
            reveal_strlit("run");
        }
        r
    } else {
        label
    }
}

/// Every slug holds only label characters and never two dashes in a row.
pub proof fn lemma_slug_shape(s: Seq<char>)
    ensures
        all_label_chars(slug(s)),
        no_double_dash(slug(s)),
    decreases s.len(),
{
    if s.len() > 0 {
        let prev = slug(s.drop_last());
        lemma_slug_shape(s.drop_last());
        let c = s.last();
        assert(slug(s) == slug_step(prev, c));
        if is_ascii_alnum(c) {
            assert(is_label_char(ascii_lower(c))) by {
                if is_ascii_upper(c) {
                    assert((c as u32) + 32 <= 'z' as u32);
                }
            }
            let r = prev.push(ascii_lower(c));
            assert forall|i: int| 0 <= i < r.len() implies is_label_char(#[trigger] r[i]) by {
                if i < prev.len() {
                    assert(r[i] == prev[i]);
                }
            }
            assert forall|i: int| 0 <= i && i + 1 < r.len() implies !(#[trigger] r[i] == '-' && r[i
                + 1] == '-') by {
                if i + 1 < prev.len() {
                    assert(r[i] == prev[i] && r[i + 1] == prev[i + 1]);
                }
            }
        } else if !(prev.len() > 0 && prev.last() == '-') {
            let r = prev.push('-');
            assert forall|i: int| 0 <= i < r.len() implies is_label_char(#[trigger] r[i]) by {
                if i < prev.len() {
                    assert(r[i] == prev[i]);
                }
            }
            assert forall|i: int| 0 <= i && i + 1 < r.len() implies !(#[trigger] r[i] == '-' && r[i
                + 1] == '-') by {
                if i + 1 < prev.len() {
                    assert(r[i] == prev[i] && r[i + 1] == prev[i + 1]);
                } else {
                    assert(r[i] == prev.last());
                }
            }
        }
    }
}

/// A label that is already written in label form: lowercase ASCII letters
/// and digits in words joined by single dashes, no dash at either end, at
/// most `MAX_LABEL_CHARS` characters.
pub open spec fn is_clean_label(s: Seq<char>) -> bool {
    &&& all_label_chars(s)
    &&& no_double_dash(s)
    &&& s.len() <= MAX_LABEL_CHARS
    &&& s.len() > 0 ==> s[0] != '-' && s.last() != '-'
}

/// Slugging leaves label characters without doubled or leading dashes alone.
proof fn lemma_slug_keeps_label_chars(s: Seq<char>)
    requires
        all_label_chars(s),
        no_double_dash(s),
        s.len() > 0 ==> s[0] != '-',
    ensures
        slug(s) == s,
    decreases s.len(),
{
    if s.len() > 0 {
        let prev = s.drop_last();
        assert forall|i: int| 0 <= i < prev.len() implies is_label_char(#[trigger] prev[i]) by {
            assert(prev[i] == s[i]);
        }
        assert forall|i: int| 0 <= i && i + 1 < prev.len() implies !(#[trigger] prev[i] == '-'
            && prev[i + 1] == '-') by {
            assert(prev[i] == s[i] && prev[i + 1] == s[i + 1]);
        }
        lemma_slug_keeps_label_chars(prev);
        let c = s.last();
        assert(is_label_char(s[s.len() - 1]));
        if c == '-' {
            assert(s.len() >= 2);
            assert(!(s[s.len() - 2] == '-' && s[s.len() - 1] == '-'));
            assert(prev.last() == s[s.len() - 2]);
        } else {
            assert(ascii_lower(c) == c);
        }
        assert(s =~= prev.push(c));
    }
}

/// A name that is already a clean label is used as the label unchanged.
pub proof fn lemma_clean_label_is_kept(s: Seq<char>)
    requires
        is_clean_label(s),
    ensures
        sanitized(s) == s,
{
    lemma_slug_keeps_label_chars(s);
    assert(trim_leading_dashes(s) == s);
    assert(trim_trailing_dashes(s) == s);
}

/// Trimming leading dashes leaves a suffix that does not start with a dash.
pub proof fn lemma_trim_leading(s: Seq<char>) -> (k: int)
    ensures
        0 <= k <= s.len(),
        trim_leading_dashes(s) == s.subrange(k, s.len() as int),
        trim_leading_dashes(s).len() > 0 ==> trim_leading_dashes(s)[0] != '-',
        forall|j: int| 0 <= j < k ==> s[j] == '-',
    decreases s.len(),
{
    if s.len() > 0 && s[0] == '-' {
        let k1 = lemma_trim_leading(s.drop_first());
        assert forall|j: int| 0 <= j < k1 + 1 implies s[j] == '-' by {
            if j > 0 {
                assert(s[j] == s.drop_first()[j - 1]);
            }
        }
        assert(s.drop_first().subrange(k1, s.drop_first().len() as int) =~= s.subrange(
            k1 + 1,
            s.len() as int,
        ));
        k1 + 1
    } else {
        assert(s.subrange(0, s.len() as int) =~= s);
        0
    }
}

/// Trimming trailing dashes leaves a prefix that does not end with a dash.
pub proof fn lemma_trim_trailing(s: Seq<char>) -> (k: int)
    ensures
        0 <= k <= s.len(),
        trim_trailing_dashes(s) == s.subrange(0, k),
        trim_trailing_dashes(s).len() > 0 ==> trim_trailing_dashes(s).last() != '-',
        forall|j: int| k <= j < s.len() ==> s[j] == '-',
    decreases s.len(),
{
    if s.len() > 0 && s.last() == '-' {
        let k1 = lemma_trim_trailing(s.drop_last());
        assert forall|j: int| k1 <= j < s.len() implies s[j] == '-' by {
            if j < s.len() - 1 {
                assert(s[j] == s.drop_last()[j]);
            }
        }
        assert(s.drop_last().subrange(0, k1) =~= s.subrange(0, k1));
        k1
    } else {
        assert(s.subrange(0, s.len() as int) =~= s);
        s.len() as int
    }
}

/// Every sanitized label is filename-safe: only lowercase ASCII letters,
/// digits and single dashes, no leading dash, at most `MAX_LABEL_CHARS`
/// characters.
pub proof fn lemma_sanitized_shape(s: Seq<char>)
    ensures
        all_label_chars(sanitized(s)),
        no_double_dash(sanitized(s)),
        sanitized(s).len() <= MAX_LABEL_CHARS,
        sanitized(s).len() > 0 ==> sanitized(s)[0] != '-',
        0 < sanitized(s).len() < MAX_LABEL_CHARS ==> sanitized(s).last() != '-',
{
    let sl = slug(s);
    lemma_slug_shape(s);
    let a = lemma_trim_leading(sl);
    let lead = trim_leading_dashes(sl);
    let b = lemma_trim_trailing(lead);
    let t = trim_dashes(sl);
    assert(t == sl.subrange(a, a + b));
    assert forall|i: int| 0 <= i < t.len() implies is_label_char(#[trigger] t[i]) by {
        assert(t[i] == sl[a + i]);
    }
    assert forall|i: int| 0 <= i && i + 1 < t.len() implies !(#[trigger] t[i] == '-' && t[i + 1]
        == '-') by {
        assert(t[i] == sl[a + i] && t[i + 1] == sl[a + i + 1]);
    }
    if t.len() > 0 {
        assert(t[0] == lead[0]);
        assert(t.last() == trim_trailing_dashes(lead).last());
    }
    let r = truncated(t);
    assert forall|i: int| 0 <= i < r.len() implies is_label_char(#[trigger] r[i]) by {
        assert(r[i] == t[i]);
    }
    assert forall|i: int| 0 <= i && i + 1 < r.len() implies !(#[trigger] r[i] == '-' && r[i + 1]
        == '-') by {
        assert(r[i] == t[i] && r[i + 1] == t[i + 1]);
    }
    if r.len() > 0 {
        assert(r[0] == t[0]);
    }
}

/// `s` holds an ASCII letter or digit.
pub open spec fn has_alnum(s: Seq<char>) -> bool {
    exists|i: int| 0 <= i < s.len() && is_ascii_alnum(#[trigger] s[i])
}

/// A slug holds a character other than a dash exactly when its source
/// holds an ASCII letter or digit.
proof fn lemma_slug_dashes(s: Seq<char>)
    ensures
        has_alnum(s) ==> exists|j: int| 0 <= j < slug(s).len() && #[trigger] slug(s)[j] != '-',
        !has_alnum(s) ==> forall|j: int| 0 <= j < slug(s).len() ==> #[trigger] slug(s)[j] == '-',
    decreases s.len(),
{
    if s.len() > 0 {
        let prev = s.drop_last();
        let c = s.last();
        lemma_slug_dashes(prev);
        let p = slug(prev);
        let r = slug(s);
        assert(r == slug_step(p, c));
        if is_ascii_alnum(c) {
            assert(r[r.len() - 1] == ascii_lower(c));
            assert(ascii_lower(c) != '-') by {
                if is_ascii_upper(c) {
                    assert((c as u32) + 32 >= 'a' as u32);
                }
            }
        } else {
            if has_alnum(s) {
                let i = choose|i: int| 0 <= i < s.len() && is_ascii_alnum(#[trigger] s[i]);
                assert(i < prev.len());
                assert(prev[i] == s[i]);
                let j = choose|j: int| 0 <= j < p.len() && #[trigger] p[j] != '-';
                assert(r[j] == p[j]);
            } else {
                assert forall|i: int| 0 <= i < prev.len() implies !is_ascii_alnum(#[trigger] prev[i]) by {
                    assert(prev[i] == s[i]);
                }
                assert forall|j: int| 0 <= j < r.len() implies #[trigger] r[j] == '-' by {
                    if j < p.len() {
                        assert(r[j] == p[j]);
                    }
                }
            }
        }
    }
}

/// A value sanitizes to the empty label exactly when it holds no ASCII
/// letter or digit.
pub proof fn lemma_sanitized_empty(s: Seq<char>)
    ensures
        (sanitized(s).len() == 0) == !has_alnum(s),
{
    let sl = slug(s);
    lemma_slug_dashes(s);
    let a = lemma_trim_leading(sl);
    let lead = trim_leading_dashes(sl);
    let b = lemma_trim_trailing(lead);
    if has_alnum(s) {
        let j = choose|j: int| 0 <= j < sl.len() && #[trigger] sl[j] != '-';
        assert(a <= j);
        assert(lead.len() > 0);
        assert(lead[0] != '-');
        assert(b >= 1);
        assert(trim_dashes(sl).len() > 0);
    } else {
        if lead.len() > 0 {
            assert(lead[0] == sl[a]);
        }
        assert(lead.len() == 0);
    }
}

/// Sanitizing a label a second time changes it only by dropping the dash
/// that the cut to `MAX_LABEL_CHARS` characters may have left at its end.
pub proof fn lemma_sanitize_twice(s: Seq<char>)
    ensures
        sanitized(sanitized(s)) == trim_trailing_dashes(sanitized(s)),
{
    let t = sanitized(s);
    lemma_sanitized_shape(s);
    lemma_slug_keeps_label_chars(t);
    assert(trim_leading_dashes(t) == t);
    let k = lemma_trim_trailing(t);
    assert(trim_trailing_dashes(t).len() <= MAX_LABEL_CHARS);
}

/// The label of a command line never starts with a dash and never holds two
/// dashes in a row.
pub proof fn lemma_command_label_shape(file_name: Option<Seq<char>>, argv: Seq<Seq<char>>)
    ensures
        no_double_dash(command_label_given(file_name, argv)),
        command_label_given(file_name, argv).len() > 0 ==> command_label_given(file_name, argv)[0]
            != '-',
{
    let program: Seq<char> = match file_name {
        Some(n) => n,
        None => "command"@,
    };
    let command = sanitized(program);
    lemma_sanitized_shape(program);
    match inline_code_given(file_name, argv) {
        Some(code) => {
            let c = sanitized(code);
            if c.len() > 0 {
                lemma_sanitized_shape(code);
                let lower = ascii_lower_seq(program);
                let i = choose|i: int|
                    0 <= i && i + python_word().len() <= lower.len() && #[trigger] lower.subrange(
                        i,
                        i + python_word().len(),
                    ) == python_word();
                assert(lower.subrange(i, i + 6)[0] == 'p');
                assert(lower[i] == ascii_lower(program[i]));
                assert(is_ascii_alnum(program[i])) by {
                    if !is_ascii_upper(program[i]) {
                        assert(program[i] == 'p');
                    }
                }
                assert(has_alnum(program));
                lemma_sanitized_empty(program);
                let joined = command + seq!['-'] + c;
                if command.len() < MAX_LABEL_CHARS {
                    assert forall|k: int| 0 <= k && k + 1 < joined.len() implies !(
                    #[trigger] joined[k] == '-' && joined[k + 1] == '-') by {
                        if k + 1 < command.len() {
                            assert(joined[k] == command[k] && joined[k + 1] == command[k + 1]);
                        } else if k + 1 == command.len() {
                            assert(joined[k] == command.last());
                        } else if k == command.len() {
                            assert(joined[k + 1] == c[0]);
                        } else {
                            assert(joined[k] == c[k - command.len() - 1]);
                            assert(joined[k + 1] == c[k - command.len()]);
                        }
                    }
                    let r = truncated(joined);
                    assert forall|k: int| 0 <= k && k + 1 < r.len() implies !(#[trigger] r[k] == '-'
                        && r[k + 1] == '-') by {
                        assert(r[k] == joined[k] && r[k + 1] == joined[k + 1]);
                    }
                    assert(r[0] == joined[0]);
                    assert(joined[0] == command[0]);
                } else {
                    assert(truncated(joined) =~= command);
                }
            }
        },
        None => {},
    }
}

/// An explicit name decides the label alone: the command line plays no
/// part, and a name that holds an ASCII letter or digit is, sanitized, the
/// label itself (a name without one falls back to `run`).
pub proof fn lemma_explicit_name_wins(n: Seq<char>, argv: Seq<Seq<char>>, other: Seq<Seq<char>>)
    ensures
        run_label_of(Some(n), argv) == run_label_of(Some(n), other),
        has_alnum(n) ==> run_label_of(Some(n), argv) == sanitized(n),
        !has_alnum(n) ==> run_label_of(Some(n), argv) == "run"@,
{
    lemma_sanitized_empty(n);
}

/// The value of the first `-c` that stands at or after `from` and at or
/// before `i`, when position `i` holds the first `-c` from `from` on.
proof fn lemma_value_after_first_flag(argv: Seq<Seq<char>>, from: int, i: int)
    requires
        0 <= from <= i,
        i + 1 < argv.len(),
        argv[i] == seq!['-', 'c'],
        forall|j: int| from <= j < i ==> argv[j] != seq!['-', 'c'],
    ensures
        value_after_flag(argv, from) == Some(argv[i + 1]),
    decreases i - from,
{
    assert(inline_code_flag() == seq!['-', 'c']);
    if from < i {
        lemma_value_after_first_flag(argv, from + 1, i);
    }
}

/// The inline code of a Python command line is the argument right after the
/// first `-c`, wherever that flag stands and whatever the arguments before
/// it look like.
pub proof fn lemma_inline_code_after_first_flag(file_name: Seq<char>, argv: Seq<Seq<char>>, i: int)
    requires
        contains_run(ascii_lower_seq(file_name), seq!['p', 'y', 't', 'h', 'o', 'n']),
        0 <= i,
        i + 1 < argv.len(),
        argv[i] == seq!['-', 'c'],
        forall|j: int| 0 <= j < i ==> argv[j] != seq!['-', 'c'],
    ensures
        inline_code_given(Some(file_name), argv) == Some(argv[i + 1]),
{
    assert(python_word() == seq!['p', 'y', 't', 'h', 'o', 'n']);
    lemma_value_after_first_flag(argv, 0, i);
}

/// Without a `-c` that some argument follows there is no inline code.
pub proof fn lemma_no_inline_code_without_flag(file_name: Option<Seq<char>>, argv: Seq<Seq<char>>)
    requires
        forall|j: int| 0 <= j && j + 1 < argv.len() ==> argv[j] != seq!['-', 'c'],
    ensures
        inline_code_given(file_name, argv) is None,
{
    assert(inline_code_flag() == seq!['-', 'c']);
    lemma_no_flag_from(argv, 0);
}

/// Without a `-c` at or after `from` that some argument follows, the scan
/// from `from` finds nothing.
proof fn lemma_no_flag_from(argv: Seq<Seq<char>>, from: int)
    requires
        0 <= from,
        forall|j: int| from <= j && j + 1 < argv.len() ==> argv[j] != seq!['-', 'c'],
    ensures
        value_after_flag(argv, from) is None,
    decreases argv.len() - from,
{
    assert(inline_code_flag() == seq!['-', 'c']);
    if from + 1 < argv.len() {
        lemma_no_flag_from(argv, from + 1);
    }
}

/// A command line whose program is no Python interpreter has no inline code.
pub proof fn lemma_no_inline_code_without_python(file_name: Option<Seq<char>>, argv: Seq<Seq<char>>)
    requires
        !(file_name matches Some(n) && contains_run(
            ascii_lower_seq(n),
            seq!['p', 'y', 't', 'h', 'o', 'n'],
        )),
    ensures
        inline_code_given(file_name, argv) is None,
{
    assert(python_word() == seq!['p', 'y', 't', 'h', 'o', 'n']);
}

/// The label of a Python `-c` run joins the program's file name and the
/// inline code with one dash, when both are already clean labels that fit
/// together; any other command line is labelled by its program alone.
pub proof fn lemma_command_label_joins_program_and_code(
    program: Seq<char>,
    argv: Seq<Seq<char>>,
)
    requires
        is_clean_label(program),
    ensures
        inline_code_given(Some(program), argv) is None ==> command_label_given(Some(program), argv)
            == program,
        (inline_code_given(Some(program), argv) matches Some(code) && is_clean_label(code)
            && code.len() > 0 && program.len() + code.len() + 1 <= MAX_LABEL_CHARS)
            ==> command_label_given(Some(program), argv) == program + seq!['-'] + inline_code_given(
            Some(program),
            argv,
        )->0,
{
    lemma_clean_label_is_kept(program);
    if let Some(code) = inline_code_given(Some(program), argv) {
        if is_clean_label(code) && code.len() > 0 && program.len() + code.len() + 1
            <= MAX_LABEL_CHARS {
            lemma_clean_label_is_kept(code);
        }
    }
}

/// Slugging text that follows a prefix appends the text's own slug, when the
/// text is already in label form and the prefix's slug does not end with a
/// dash that would merge with the text's.
proof fn lemma_slug_append(p: Seq<char>, t: Seq<char>)
    requires
        all_label_chars(t),
        no_double_dash(t),
        t.len() > 0 ==> t[0] != '-',
    ensures
        slug(p + t) == slug(p) + t,
    decreases t.len(),
{
    if t.len() > 0 {
        let init = t.drop_last();
        assert forall|i: int| 0 <= i < init.len() implies is_label_char(#[trigger] init[i]) by {
            assert(init[i] == t[i]);
        }
        assert forall|i: int| 0 <= i && i + 1 < init.len() implies !(#[trigger] init[i] == '-'
            && init[i + 1] == '-') by {
            assert(init[i] == t[i] && init[i + 1] == t[i + 1]);
        }
        lemma_slug_append(p, init);
        let c = t.last();
        assert((p + t).drop_last() =~= p + init);
        assert((p + t).last() == c);
        let acc = slug(p) + init;
        assert(is_label_char(t[t.len() - 1]));
        if c == '-' {
            assert(t.len() >= 2);
            assert(!(t[t.len() - 2] == '-' && t[t.len() - 1] == '-'));
            assert(acc.last() == t[t.len() - 2]);
        } else {
            assert(ascii_lower(c) == c);
        }
        assert(acc.push(c) =~= slug(p) + t);
    } else {
        assert(p + t =~= p);
        assert(slug(p) + t =~= slug(p));
    }
}

/// A single character other than an ASCII letter or digit between two clean
/// labels becomes exactly one dash: `v1.2` and `v1_2` both give `v1-2`.
pub proof fn lemma_separator_becomes_dash(a: Seq<char>, c: char, b: Seq<char>)
    requires
        is_clean_label(a),
        is_clean_label(b),
        a.len() > 0,
        b.len() > 0,
        a.len() + b.len() + 1 <= MAX_LABEL_CHARS,
        !is_ascii_alnum(c),
    ensures
        sanitized(a + seq![c] + b) == a + seq!['-'] + b,
{
    lemma_slug_append(Seq::empty(), a);
    assert(Seq::<char>::empty() + a =~= a);
    assert(slug(Seq::<char>::empty()) =~= Seq::<char>::empty());
    let ac = a + seq![c];
    assert(ac.drop_last() =~= a);
    assert(slug(ac) == slug_step(a, c));
    assert(slug(ac) =~= a + seq!['-']);
    lemma_slug_append(ac, b);
    let r = a + seq!['-'] + b;
    assert(ac + b =~= a + seq![c] + b);
    assert(slug(a + seq![c] + b) =~= r);
    assert(r[0] == a[0]);
    assert(trim_leading_dashes(r) == r);
    assert(r.last() == b.last());
    assert(trim_trailing_dashes(r) == r);
}

/// The first `MAX_LABEL_CHARS` characters of `label`.
pub fn truncate_label(label: &str) -> (r: String)
    ensures
        r@ == truncated(label@),
{
    let n = label.unicode_len();
    let keep = if n <= MAX_LABEL_CHARS {
        n
    } else {
        MAX_LABEL_CHARS
    };
    let kept = label.substring_char(0, keep);
    let r = kept.to_owned();
    assert(label@.subrange(0, n as int) =~= label@);
    r
}

/// The filename-safe form of `value`: ASCII letters and digits in lowercase,
/// every run of other characters as one dash, no dash at either end, at most
/// `MAX_LABEL_CHARS` characters.
pub fn sanitize_label(value: &str) -> (r: String)
    ensures
        r@ == sanitized(value@),
        all_label_chars(r@),
        no_double_dash(r@),
        r@.len() <= MAX_LABEL_CHARS,
        r@.len() > 0 ==> r@[0] != '-',
        (r@.len() == 0) == !has_alnum(value@),
{
    proof {
        lemma_sanitized_shape(value@);
        lemma_sanitized_empty(value@);
    }
    let mut slug_chars: Vec<char> = Vec::new();
    for c in it: value.chars()
        invariant
            it.seq() == value@,
            slug_chars@ == slug(value@.take(it.index() as int)),
    {
        let ghost before = value@.take(it.index() as int);
        proof {
            let after = value@.take(it.index() + 1);
            assert(after.drop_last() =~= before);
            assert(after.last() == c);
        }
        if ascii_alphanumeric(c) {
            slug_chars.push(to_ascii_lower(c));
        } else if !(slug_chars.len() > 0 && slug_chars[slug_chars.len() - 1] == '-') {
            slug_chars.push('-');
        }
    }
    assert(value@.take(value@.len() as int) =~= value@);
    let ghost s = slug_chars@;
    let n = slug_chars.len();
    let mut start: usize = 0;
    assert(s.subrange(0, n as int) =~= s);
    while start < n && slug_chars[start] == '-'
        invariant
            n == s.len(),
            slug_chars@ == s,
            start <= n,
            trim_leading_dashes(s) == trim_leading_dashes(s.subrange(start as int, n as int)),
        decreases n - start,
    {
        assert(s.subrange(start as int, n as int).drop_first() =~= s.subrange(
            start + 1,
            n as int,
        ));
        start = start + 1;
    }
    let ghost lead = s.subrange(start as int, n as int);
    assert(trim_leading_dashes(s) == lead);
    let mut end: usize = n;
    while end > start && slug_chars[end - 1] == '-'
        invariant
            n == s.len(),
            slug_chars@ == s,
            start <= end <= n,
            lead == s.subrange(start as int, n as int),
            trim_trailing_dashes(lead) == trim_trailing_dashes(s.subrange(start as int, end as int)),
        decreases end - start,
    {
        assert(s.subrange(start as int, end as int).drop_last() =~= s.subrange(
            start as int,
            end - 1,
        ));
        end = end - 1;
    }
    let mut trimmed = String::new();
    let mut i: usize = start;
    while i < end
        invariant
            slug_chars@ == s,
            start <= i <= end <= n,
            n == s.len(),
            trimmed@ == s.subrange(start as int, i as int),
        decreases end - i,
    {
        trimmed.push(slug_chars[i]);
        assert(s.subrange(start as int, i + 1) =~= s.subrange(start as int, i as int).push(
            s[i as int],
        ));
        i = i + 1;
    }
    assert(trimmed@ == trim_dashes(s));
    truncate_label(trimmed.as_str())
}

} // verus!
