//! The terminal's command line: splitting a line into a command and its
//! arguments, and reading numbers the way `str::parse` does.
use vstd::prelude::*;
use std::collections::VecDeque;
use crate::text::{chars_of, str_trim, string_of, trim};

verus! {

/// Why a decimal number could not be read.
#[derive(Clone, Copy, Debug, PartialEq, Eq, Structural)]
pub enum IntErrorKind {
    Empty,
    InvalidDigit,
    PosOverflow,
}

/// The value of a decimal digit.
pub open spec fn decimal_digit(c: char) -> Option<nat> {
    if '0' <= c && c <= '9' {
        Some((c as u32 - '0' as u32) as nat)
    } else {
        None
    }
}

/// Reads digits from left to right; the first character that is no digit
/// fails with `InvalidDigit`, a value that passes `u64::MAX` with
/// `PosOverflow`, whichever comes first.
pub open spec fn fold_digits(d: Seq<char>) -> Result<nat, IntErrorKind>
    decreases d.len(),
{
    if d.len() == 0 {
        Ok(0)
    } else {
        match fold_digits(d.drop_last()) {
            Err(e) => Err(e),
            Ok(v) => match decimal_digit(d.last()) {
                None => Err(IntErrorKind::InvalidDigit),
                Some(x) => if v * 10 + x > u64::MAX {
                    Err(IntErrorKind::PosOverflow)
                } else {
                    Ok(v * 10 + x)
                },
            },
        }
    }
}

/// What `str::parse::<u64>` gives: an empty text is `Empty`; a lone sign is
/// `InvalidDigit`; one leading `+` is skipped; the rest must be digits.
pub open spec fn parse_u64_spec(s: Seq<char>) -> Result<u64, IntErrorKind> {
    if s.len() == 0 {
        Err(IntErrorKind::Empty)
    } else if s.len() == 1 && (s[0] == '+' || s[0] == '-') {
        Err(IntErrorKind::InvalidDigit)
    } else {
        let d = if s[0] == '+' {
            s.drop_first()
        } else {
            s
        };
        match fold_digits(d) {
            Ok(v) => Ok(v as u64),
            Err(e) => Err(e),
        }
    }
}

fn digit_of(c: char) -> (d: Option<u64>)
    ensures
        match decimal_digit(c) {
            Some(x) => d == Some(x as u64),
            None => d is None,
        },
{
    if '0' <= c && c <= '9' {
        Some((c as u32 - '0' as u32) as u64)
    } else {
        None
    }
}

/// Reads an unsigned decimal number as `str::parse::<u64>` does.
pub fn parse_u64(s: &str) -> (r: Result<u64, IntErrorKind>)
    ensures
        r == parse_u64_spec(s@),
{
    let v = chars_of(s);
    let n = v.len();
    if n == 0 {
        return Err(IntErrorKind::Empty);
    }
    if n == 1 && (v[0] == '+' || v[0] == '-') {
        return Err(IntErrorKind::InvalidDigit);
    }
    let start: usize = if v[0] == '+' {
        1
    } else {
        0
    };
    let ghost d = if v@[0] == '+' {
        v@.drop_first()
    } else {
        v@
    };
    assert(d =~= v@.skip(start as int));
    assert(parse_u64_spec(s@) == match fold_digits(d) {
        Ok(x) => Ok::<u64, IntErrorKind>(x as u64),
        Err(e) => Err(e),
    });
    let mut value: u64 = 0;
    let mut i: usize = start;
    while i < n
        invariant
            n == v@.len(),
            start <= i <= n,
            d =~= v@.skip(start as int),
            parse_u64_spec(s@) == match fold_digits(d) {
                Ok(x) => Ok::<u64, IntErrorKind>(x as u64),
                Err(e) => Err(e),
            },
            fold_digits(d.take(i - start)) == Ok::<nat, IntErrorKind>(value as nat),
        decreases n - i,
    {
        let ghost k = (i - start) as int;
        assert(d.take(k + 1).drop_last() =~= d.take(k));
        assert(d.take(k + 1).last() == v@[i as int]);
        match digit_of(v[i]) {
            None => {
                proof {
                    lemma_fold_error_sticks(d, k + 1);
                }
                return Err(IntErrorKind::InvalidDigit);
            },
            Some(x) => {
                if value > (u64::MAX - x) / 10 {
                    assert(value * 10 + x > u64::MAX) by (nonlinear_arith)
                        requires
                            value > (u64::MAX - x) / 10,
                            x <= 9,
                    ;
                    proof {
                        lemma_fold_error_sticks(d, k + 1);
                    }
                    return Err(IntErrorKind::PosOverflow);
                }
                assert(value * 10 + x <= u64::MAX) by (nonlinear_arith)
                    requires
                        value <= (u64::MAX - x) / 10,
                        x <= 9,
                ;
                value = value * 10 + x;
            },
        }
        i += 1;
    }
    assert(d.take(n - start) =~= d);
    Ok(value)
}

/// Once a prefix of the digits fails, the whole fails the same way.
proof fn lemma_fold_error_sticks(d: Seq<char>, k: int)
    requires
        0 <= k <= d.len(),
        fold_digits(d.take(k)) is Err,
    ensures
        fold_digits(d) == fold_digits(d.take(k)),
    decreases d.len() - k,
{
    if k < d.len() {
        assert(d.take(k + 1).drop_last() =~= d.take(k));
        lemma_fold_error_sticks(d, k + 1);
    } else {
        assert(d.take(k) =~= d);
    }
}

/// Whether some character is a space.
pub open spec fn has_space(s: Seq<char>) -> bool {
    exists|i: int| 0 <= i < s.len() && s[i] == ' '
}

/// Where the first space stands.
pub open spec fn first_space(s: Seq<char>) -> int {
    choose|i: int| 0 <= i < s.len() && s[i] == ' ' && forall|j: int| 0 <= j < i ==> s[j] != ' '
}

/// `split_once(' ')`: the text before and after the first space.
pub open spec fn split_once_space(s: Seq<char>) -> Option<(Seq<char>, Seq<char>)> {
    if has_space(s) {
        Some((s.take(first_space(s)), s.skip(first_space(s) + 1)))
    } else {
        None
    }
}

/// Finds the first space of a text.
fn find_space(v: &Vec<char>) -> (r: Option<usize>)
    ensures
        match r {
            Some(i) => has_space(v@) && i == first_space(v@) && i < v@.len(),
            None => !has_space(v@),
        },
{
    let mut i: usize = 0;
    while i < v.len()
        invariant
            i <= v@.len(),
            forall|j: int| 0 <= j < i ==> v@[j] != ' ',
        decreases v.len() - i,
    {
        if v[i] == ' ' {
            assert(has_space(v@));
            let ghost k = first_space(v@);
            assert(0 <= k < v@.len() && v@[k] == ' ' && forall|j: int| 0 <= j < k ==> v@[j] != ' ');
            assert(k == i) by {
                if k < i {
                    assert(v@[k] != ' ');
                } else if k > i {
                    assert(v@[i as int] != ' ');
                }
            }
            return Some(i);
        }
        i += 1;
    }
    None
}

/// Splits a text at its first space.
fn split_at_space(v: &Vec<char>) -> (r: Option<(Vec<char>, Vec<char>)>)
    ensures
        match split_once_space(v@) {
            Some((a, b)) => r matches Some((x, y)) && x@ == a && y@ == b,
            None => r is None,
        },
{
    match find_space(v) {
        None => None,
        Some(i) => {
            let mut a: Vec<char> = Vec::new();
            let mut b: Vec<char> = Vec::new();
            let mut j: usize = 0;
            while j < v.len()
                invariant
                    i < v@.len(),
                    j <= v@.len(),
                    j <= i ==> a@ == v@.take(j as int) && b@.len() == 0,
                    j > i ==> a@ == v@.take(i as int) && b@ == v@.subrange(i + 1, j as int),
                decreases v.len() - j,
            {
                if j < i {
                    a.push(v[j]);
                    assert(v@.take(j + 1) =~= v@.take(j as int).push(v@[j as int]));
                } else if j > i {
                    b.push(v[j]);
                    assert(v@.subrange(i + 1, j + 1) =~= v@.subrange(i + 1, j as int).push(
                        v@[j as int],
                    ));
                } else {
                    assert(b@ =~= v@.subrange(i + 1, i + 1));
                }
                j += 1;
            }
            assert(b@ =~= v@.skip(i + 1));
            Some((a, b))
        },
    }
}

/// ASCII white space, as `char::is_ascii_whitespace` decides.
pub open spec fn is_ascii_ws(c: char) -> bool {
    c == ' ' || c == '\t' || c == '\n' || c == '\x0C' || c == '\r'
}

/// The words found so far and the word being read, after reading a text
/// from left to right.
pub open spec fn words_state(s: Seq<char>) -> (Seq<Seq<char>>, Seq<char>)
    decreases s.len(),
{
    if s.len() == 0 {
        (Seq::empty(), Seq::empty())
    } else {
        let (w, cur) = words_state(s.drop_last());
        if is_ascii_ws(s.last()) {
            if cur.len() > 0 {
                (w.push(cur), Seq::empty())
            } else {
                (w, cur)
            }
        } else {
            (w, cur.push(s.last()))
        }
    }
}

/// `split_ascii_whitespace`: the non-empty runs of characters between
/// ASCII white space, in order.
pub open spec fn ascii_words(s: Seq<char>) -> Seq<Seq<char>> {
    let (w, cur) = words_state(s);
    if cur.len() > 0 {
        w.push(cur)
    } else {
        w
    }
}

/// Splits a text into its words.
fn split_words(v: &Vec<char>) -> (r: Vec<String>)
    ensures
        r@.len() == ascii_words(v@).len(),
        forall|k: int| 0 <= k < r@.len() ==> r@[k]@ == ascii_words(v@)[k],
{
    let mut words: Vec<String> = Vec::new();
    let mut cur: Vec<char> = Vec::new();
    let mut i: usize = 0;
    while i < v.len()
        invariant
            i <= v@.len(),
            words@.len() == words_state(v@.take(i as int)).0.len(),
            forall|k: int|
                0 <= k < words@.len() ==> words@[k]@ == words_state(v@.take(i as int)).0[k],
            cur@ == words_state(v@.take(i as int)).1,
        decreases v.len() - i,
    {
        let c = v[i];
        assert(v@.take(i + 1).drop_last() =~= v@.take(i as int));
        if c == ' ' || c == '\t' || c == '\n' || c == '\x0C' || c == '\r' {
            if cur.len() > 0 {
                let w = string_of(cur.as_slice());
                words.push(w);
                cur = Vec::new();
            }
        } else {
            cur.push(c);
        }
        i += 1;
    }
    assert(v@.take(v@.len() as int) =~= v@);
    if cur.len() > 0 {
        let w = string_of(cur.as_slice());
        words.push(w);
    }
    words
}

/// The command word and the rest of a line: the trimmed line split at its
/// first space, or, where it has none, the whole untrimmed line and nothing.
pub open spec fn split_command(input: Seq<char>) -> (Seq<char>, Seq<char>) {
    match split_once_space(trim(input)) {
        Some(p) => p,
        None => (input, Seq::empty()),
    }
}

/// A line of the terminal, read as a command.
#[derive(Debug)]
pub enum Command {
    /// An empty line.
    Nothing,
    Pwd,
    Echo(String),
    /// `disk`, with the number read from the trimmed argument.
    Disk(Result<u64, IntErrorKind>),
    Ls(String),
    Tree(String),
    Cd(String),
    /// `cat`, with its file names.
    Cat(Vec<String>),
    /// `write`, with the file and the data, or `None` without a space.
    Write(Option<(String, String)>),
    /// `append`, with the file and the data, or `None` without a space.
    Append(Option<(String, String)>),
    /// `exec`, with the program and its arguments.
    Exec(String, String),
    /// `sleep`, with the milliseconds read from the argument.
    Sleep(Result<u64, IntErrorKind>),
    Test,
    Exit,
    /// Any other word.
    NotFound(String),
}

/// A file and data argument pair, as the line gives it.
pub open spec fn pair_matches(p: Option<(String, String)>, s: Seq<char>) -> bool {
    match split_once_space(s) {
        Some((a, b)) => p matches Some((x, y)) && x@ == a && y@ == b,
        None => p is None,
    }
}

/// What a line means, as a command.
pub open spec fn command_of(c: Command, input: Seq<char>) -> bool {
    let (cmd, rest) = split_command(input);
    if cmd.len() == 0 {
        c is Nothing
    } else if cmd == "pwd"@ {
        c is Pwd
    } else if cmd == "echo"@ {
        c matches Command::Echo(t) && t@ == rest
    } else if cmd == "disk"@ {
        c == Command::Disk(parse_u64_spec(trim(rest)))
    } else if cmd == "ls"@ {
        c matches Command::Ls(t) && t@ == rest
    } else if cmd == "tree"@ {
        c matches Command::Tree(t) && t@ == rest
    } else if cmd == "cd"@ {
        c matches Command::Cd(t) && t@ == rest
    } else if cmd == "cat"@ {
        c matches Command::Cat(files) && files@.len() == ascii_words(rest).len() && (forall|
            k: int,
        |
            0 <= k < files@.len() ==> files@[k]@ == ascii_words(rest)[k])
    } else if cmd == "write"@ {
        c matches Command::Write(p) && pair_matches(p, rest)
    } else if cmd == "append"@ {
        c matches Command::Append(p) && pair_matches(p, rest)
    } else if cmd == "exec"@ {
        c matches Command::Exec(prog, args) && match split_once_space(rest) {
            Some((a, b)) => prog@ == a && args@ == b,
            None => prog@ == rest && args@.len() == 0,
        }
    } else if cmd == "sleep"@ {
        c == Command::Sleep(parse_u64_spec(rest))
    } else if cmd == "test"@ {
        c is Test
    } else if cmd == "exit"@ {
        c is Exit
    } else {
        c matches Command::NotFound(t) && t@ == cmd
    }
}

/// Whether a text is a given word.
fn is_word(v: &Vec<char>, word: &str) -> (b: bool)
    ensures
        b == (v@ == word@),
{
    let n = word.unicode_len();
    if v.len() != n {
        return false;
    }
    let mut i: usize = 0;
    while i < n
        invariant
            n == word@.len(),
            n == v@.len(),
            i <= n,
            forall|j: int| 0 <= j < i ==> v@[j] == word@[j],
        decreases n - i,
    {
        if v[i] != word.get_char(i) {
            return false;
        }
        i += 1;
    }
    assert(v@ =~= word@);
    true
}

/// Splits a file and data argument pair.
fn pair_of(rest: &Vec<char>) -> (p: Option<(String, String)>)
    ensures
        pair_matches(p, rest@),
{
    match split_at_space(rest) {
        Some((a, b)) => Some((string_of(a.as_slice()), string_of(b.as_slice()))),
        None => None,
    }
}

/// Reads a line of the terminal as a command.
pub fn parse_command(input: &str) -> (c: Command)
    ensures
        command_of(c, input@),
{
    let t = chars_of(str_trim(input));
    let (cmd, rest) = match split_at_space(&t) {
        Some((a, b)) => (a, b),
        None => (chars_of(input), Vec::new()),
    };
    assert(cmd@ == split_command(input@).0 && rest@ == split_command(input@).1);
    if cmd.len() == 0 {
        Command::Nothing
    } else if is_word(&cmd, "pwd") {
        Command::Pwd
    } else if is_word(&cmd, "echo") {
        Command::Echo(string_of(rest.as_slice()))
    } else if is_word(&cmd, "disk") {
        let r = string_of(rest.as_slice());
        Command::Disk(parse_u64(str_trim(r.as_str())))
    } else if is_word(&cmd, "ls") {
        Command::Ls(string_of(rest.as_slice()))
    } else if is_word(&cmd, "tree") {
        Command::Tree(string_of(rest.as_slice()))
    } else if is_word(&cmd, "cd") {
        Command::Cd(string_of(rest.as_slice()))
    } else if is_word(&cmd, "cat") {
        Command::Cat(split_words(&rest))
    } else if is_word(&cmd, "write") {
        Command::Write(pair_of(&rest))
    } else if is_word(&cmd, "append") {
        Command::Append(pair_of(&rest))
    } else if is_word(&cmd, "exec") {
        match split_at_space(&rest) {
            Some((a, b)) => Command::Exec(string_of(a.as_slice()), string_of(b.as_slice())),
            None => Command::Exec(string_of(rest.as_slice()), String::new()),
        }
    } else if is_word(&cmd, "sleep") {
        let r = string_of(rest.as_slice());
        Command::Sleep(parse_u64(r.as_str()))
    } else if is_word(&cmd, "test") {
        Command::Test
    } else if is_word(&cmd, "exit") {
        Command::Exit
    } else {
        Command::NotFound(string_of(cmd.as_slice()))
    }
}

/// What `disk` does with the number it read and the count of file systems.
#[derive(Clone, Copy, Debug, PartialEq, Eq, Structural)]
pub enum DiskChoice {
    /// The file system becomes the current one.
    Select(usize),
    /// The number is out of range: "Disk {num} not in range 0..{len}".
    OutOfRange(u64),
    /// No number: "Disks: 0..{len}".
    List,
}

/// Decides what `disk` does.
pub fn disk_choice(num: Result<u64, IntErrorKind>, fs_len: usize) -> (d: DiskChoice)
    ensures
        match num {
            Ok(n) => if n < fs_len {
                d == DiskChoice::Select(n as usize)
            } else {
                d == DiskChoice::OutOfRange(n)
            },
            Err(_) => d == DiskChoice::List,
        },
{
    match num {
        Ok(n) => {
            if (n as u128) < (fs_len as u128) {
                DiskChoice::Select(n as usize)
            } else {
                DiskChoice::OutOfRange(n)
            }
        },
        Err(_) => DiskChoice::List,
    }
}

/// The disk a file-system command works on: the selected one, or the
/// error "no disk selected".
pub fn selected_disk(current_fs: Option<usize>) -> (r: Result<usize, &'static str>)
    ensures
        match current_fs {
            Some(id) => r == Ok::<usize, &'static str>(id),
            None => r matches Err(m) && m@ == "no disk selected"@,
        },
{
    match current_fs {
        Some(id) => Ok(id),
        None => Err("no disk selected"),
    }
}

/// A path taken from the current folder: an absolute path (one that starts
/// with `/`) as it is; else the path below the current folder, with a `/`
/// between them unless the folder already ends with one.
pub open spec fn joined_path(cwd: Seq<char>, path: Seq<char>) -> Seq<char> {
    if path.len() > 0 && path[0] == '/' {
        path
    } else if cwd.len() > 0 && cwd.last() == '/' {
        cwd + path
    } else {
        cwd + seq!['/'] + path
    }
}

/// Joins a path to the current folder, as `joined_path` says.
pub fn join_path(cwd: &str, path: &str) -> (r: String)
    ensures
        r@ == joined_path(cwd@, path@),
{
    let p = chars_of(path);
    if p.len() > 0 && p[0] == '/' {
        return string_of(p.as_slice());
    }
    let c = chars_of(cwd);
    let mut v: Vec<char> = c.clone();
    assert(v@ == cwd@);
    if !(c.len() > 0 && c[c.len() - 1] == '/') {
        v.push('/');
    }
    let ghost before = v@;
    let mut i: usize = 0;
    while i < p.len()
        invariant
            i <= p@.len(),
            v@ == before + p@.take(i as int),
        decreases p.len() - i,
    {
        v.push(p[i]);
        assert(p@.take(i + 1) =~= p@.take(i as int).push(p@[i as int]));
        i += 1;
    }
    assert(p@.take(p@.len() as int) =~= p@);
    let r = string_of(v.as_slice());
    assert(r@ =~= joined_path(cwd@, path@));
    r
}

/// What the file system says is at a path.
#[derive(Clone, Copy, Debug, PartialEq, Eq, Structural)]
pub enum StatKind {
    Missing,
    File,
    Folder,
}

/// Whether what is at a path suits a command that wants a folder (`ls`,
/// `tree`, `cd`) or a file (`cat`, `write`, `append`, `exec`): nothing there
/// is "Invalid path"; a file where a folder is wanted is "This is a file";
/// a folder where a file is wanted is "This is a folder".
pub fn check_stat(stat: StatKind, want_folder: bool) -> (r: Result<(), &'static str>)
    ensures
        match stat {
            StatKind::Missing => r matches Err(m) && m@ == "Invalid path"@,
            StatKind::File => if want_folder {
                r matches Err(m) && m@ == "This is a file"@
            } else {
                r is Ok
            },
            StatKind::Folder => if want_folder {
                r is Ok
            } else {
                r matches Err(m) && m@ == "This is a folder"@
            },
        },
{
    match stat {
        StatKind::Missing => Err("Invalid path"),
        StatKind::File => if want_folder {
            Err("This is a file")
        } else {
            Ok(())
        },
        StatKind::Folder => if want_folder {
            Ok(())
        } else {
            Err("This is a folder")
        },
    }
}

/// `cd`: the current folder becomes the joined path when a folder is
/// there; otherwise the error of `check_stat` and the folder stays.
pub fn cd_result(cwd: &str, rest: &str, stat: StatKind) -> (r: Result<String, &'static str>)
    ensures
        match stat {
            StatKind::Folder => r matches Ok(p) && p@ == joined_path(cwd@, rest@),
            StatKind::File => r matches Err(m) && m@ == "This is a file"@,
            StatKind::Missing => r matches Err(m) && m@ == "Invalid path"@,
        },
{
    match check_stat(stat, true) {
        Ok(()) => Ok(join_path(cwd, rest)),
        Err(e) => Err(e),
    }
}

/// How a command changes the terminal's state: the selected disk, the
/// current folder, or neither.
pub enum StateChange {
    Keep,
    SetDisk(usize),
    SetCwd(String),
}

/// What a command does to the terminal's state, given the current folder,
/// the selected disk, the number of disks and what the file system says is
/// at the path `cd` names (unused for other commands): only `disk` with a
/// number in range selects a disk; only `cd` to a folder of the selected
/// disk changes the folder, with its errors as `selected_disk` and
/// `cd_result` give them; every other command keeps the state.
pub fn state_change(
    c: &Command,
    cwd: &str,
    current_fs: Option<usize>,
    fs_len: usize,
    cd_stat: StatKind,
) -> (r: Result<StateChange, &'static str>)
    ensures
        match c {
            Command::Disk(num) => match *num {
                Ok(n) => if n < fs_len {
                    r matches Ok(StateChange::SetDisk(d)) && d == n
                } else {
                    r matches Ok(StateChange::Keep)
                },
                Err(_) => r matches Ok(StateChange::Keep),
            },
            Command::Cd(rest) => match current_fs {
                None => r matches Err(m) && m@ == "no disk selected"@,
                Some(_) => match cd_stat {
                    StatKind::Folder => r matches Ok(StateChange::SetCwd(p)) && p@ == joined_path(
                        cwd@,
                        rest@,
                    ),
                    StatKind::File => r matches Err(m) && m@ == "This is a file"@,
                    StatKind::Missing => r matches Err(m) && m@ == "Invalid path"@,
                },
            },
            _ => r matches Ok(StateChange::Keep),
        },
{
    match c {
        Command::Disk(num) => match disk_choice(*num, fs_len) {
            DiskChoice::Select(d) => Ok(StateChange::SetDisk(d)),
            _ => Ok(StateChange::Keep),
        },
        Command::Cd(rest) => match selected_disk(current_fs) {
            Err(e) => Err(e),
            Ok(_) => match cd_result(cwd, rest.as_str(), cd_stat) {
                Ok(p) => Ok(StateChange::SetCwd(p)),
                Err(e) => Err(e),
            },
        },
        _ => Ok(StateChange::Keep),
    }
}

/// How much `cat` reads at once.
pub const CAT_READ_SIZE: u64 = 0x10000;

/// The reads `cat` makes of a file of `length` bytes: from each multiple of
/// 64 KiB below the length, up to 64 KiB, cut at the end.
pub fn cat_reads(length: u64) -> (v: Vec<(u64, u64)>)
    ensures
        v@.len() == (length + CAT_READ_SIZE - 1) / (CAT_READ_SIZE as int),
        forall|i: int|
            0 <= i < v@.len() ==> (#[trigger] v@[i]).0 == i * CAT_READ_SIZE && v@[i].1 == if length
                - i * CAT_READ_SIZE < CAT_READ_SIZE {
                length - i * CAT_READ_SIZE
            } else {
                CAT_READ_SIZE as int
            },
{
    let n: u64 = length / CAT_READ_SIZE + if length % CAT_READ_SIZE != 0 {
        1
    } else {
        0
    };
    assert(n == (length + CAT_READ_SIZE - 1) / (CAT_READ_SIZE as int));
    let mut v: Vec<(u64, u64)> = Vec::new();
    let mut i: u64 = 0;
    while i < n
        invariant
            n == (length + CAT_READ_SIZE - 1) / (CAT_READ_SIZE as int),
            i <= n,
            v@.len() == i,
            forall|k: int|
                0 <= k < v@.len() ==> (#[trigger] v@[k]).0 == k * CAT_READ_SIZE && v@[k].1 == if length
                    - k * CAT_READ_SIZE < CAT_READ_SIZE {
                    length - k * CAT_READ_SIZE
                } else {
                    CAT_READ_SIZE as int
                },
        decreases n - i,
    {
        assert(i * 0x10000 < length) by (nonlinear_arith)
            requires
                i < n,
                n == (length + 0xFFFF) / 0x10000,
                i >= 0,
        ;
        let start = i * CAT_READ_SIZE;
        let rest = length - start;
        let len = if rest < CAT_READ_SIZE {
            rest
        } else {
            CAT_READ_SIZE
        };
        v.push((start, len));
        i = i + 1;
    }
    v
}

/// The most lines the history keeps.
pub const HISTORY_LIMIT: usize = 1000;

/// The line editor as a value: the line being typed, the lines typed
/// before (the most recent first), and how far back the up key has gone.
pub struct EditorState {
    pub line: Seq<char>,
    pub history: Seq<Seq<char>>,
    pub pos: int,
}

/// The line that the history position shows: none at the start, else the
/// entry just behind it.
pub open spec fn shown_line(s: EditorState) -> Seq<char> {
    if s.pos > 0 {
        s.history[s.pos - 1]
    } else {
        Seq::empty()
    }
}

/// One key of the line editor: the next state, how many characters to
/// erase on screen, the text to print, and the line handed on, if any.
/// Enter hands the line on and, when it is not empty, puts it first in the
/// history, dropping the oldest beyond the limit. Backspace drops the last
/// character. Up shows the next older line of the history, down the next
/// newer one (or an empty line at the start). Any other key is typed.
pub open spec fn edit_step(s: EditorState, c: char) -> (EditorState, nat, Seq<char>, Option<
    Seq<char>,
>) {
    if c == '\n' {
        let h = if s.line.len() > 0 {
            let h1 = seq![s.line] + s.history;
            if h1.len() > HISTORY_LIMIT {
                h1.drop_last()
            } else {
                h1
            }
        } else {
            s.history
        };
        (EditorState { line: Seq::empty(), history: h, pos: 0 }, 0, Seq::empty(), Some(s.line))
    } else if c == '\x08' {
        if s.line.len() > 0 {
            (EditorState { line: s.line.drop_last(), ..s }, 1, Seq::empty(), None)
        } else {
            (s, 0, Seq::empty(), None)
        }
    } else if c == '\u{2193}' {
        let n = EditorState { pos: if s.pos > 0 {
            s.pos - 1
        } else {
            0
        }, ..s };
        let l = shown_line(n);
        (EditorState { line: l, ..n }, s.line.len(), l, None)
    } else if c == '\u{2191}' {
        if s.pos < s.history.len() {
            let l = s.history[s.pos];
            (EditorState { line: l, pos: s.pos + 1, ..s }, s.line.len(), l, None)
        } else {
            (s, 0, Seq::empty(), None)
        }
    } else {
        (EditorState { line: s.line.push(c), ..s }, 0, seq![c], None)
    }
}

/// What the terminal does on screen after a key: erase characters, print
/// text, and, after enter, end the line and run the one handed on.
pub struct Echo {
    pub erase: usize,
    pub text: String,
    pub submitted: Option<String>,
}

/// The terminal's line editor with its history.
pub struct LineEditor {
    line: Vec<char>,
    history: VecDeque<Vec<char>>,
    pos: usize,
}

fn copy_chars(v: &Vec<char>) -> (c: Vec<char>)
    ensures
        c@ == v@,
{
    let mut c: Vec<char> = Vec::new();
    let mut i: usize = 0;
    while i < v.len()
        invariant
            i <= v@.len(),
            c@ == v@.take(i as int),
        decreases v.len() - i,
    {
        c.push(v[i]);
        assert(v@.take(i + 1) =~= v@.take(i as int).push(v@[i as int]));
        i += 1;
    }
    assert(v@.take(v@.len() as int) =~= v@);
    c
}

impl LineEditor {
    /// The editor as a value.
    pub closed spec fn state(&self) -> EditorState {
        EditorState {
            line: self.line@,
            history: self.history@.map_values(|l: Vec<char>| l@),
            pos: self.pos as int,
        }
    }

    /// The history keeps at most its limit of lines and the position stays
    /// within it.
    pub open spec fn wf(&self) -> bool {
        &&& self.state().history.len() <= HISTORY_LIMIT
        &&& 0 <= self.state().pos <= self.state().history.len()
    }

    /// An empty line and an empty history.
    pub fn new() -> (e: Self)
        ensures
            e.wf(),
            e.state().line.len() == 0,
            e.state().history.len() == 0,
            e.state().pos == 0,
    {
        let e = LineEditor { line: Vec::new(), history: VecDeque::new(), pos: 0 };
        assert(e.state().history =~= Seq::<Seq<char>>::empty());
        e
    }

    /// Takes one key.
    pub fn key(&mut self, c: char) -> (e: Echo)
        requires
            old(self).wf(),
        ensures
            final(self).wf(),
            ({
                let (s, erase, text, sub) = edit_step(old(self).state(), c);
                &&& final(self).state() == s
                &&& e.erase == erase
                &&& e.text@ == text
                &&& match sub {
                    Some(l) => e.submitted matches Some(x) && x@ == l,
                    None => e.submitted is None,
                }
            }),
    {
        broadcast use vstd::std_specs::vecdeque::group_vec_dequeue_axioms;

        let ghost s0 = self.state();
        if c == '\n' {
            let mut line: Vec<char> = Vec::new();
            std::mem::swap(&mut line, &mut self.line);
            let submitted = string_of(line.as_slice());
            if line.len() > 0 {
                self.history.push_front(line);
                if self.history.len() > HISTORY_LIMIT {
                    self.history.pop_back();
                }
            }
            self.pos = 0;
            proof {
                let h = if s0.line.len() > 0 {
                    let h1 = seq![s0.line] + s0.history;
                    if h1.len() > HISTORY_LIMIT {
                        h1.drop_last()
                    } else {
                        h1
                    }
                } else {
                    s0.history
                };
                assert(self.state().history =~= h);
                assert(self.state().line =~= Seq::<char>::empty());
            }
            Echo { erase: 0, text: String::new(), submitted: Some(submitted) }
        } else if c == '\x08' {
            let erase: usize = if self.line.len() > 0 {
                self.line.pop();
                1
            } else {
                0
            };
            proof {
                assert(self.state().history =~= s0.history);
            }
            Echo { erase, text: String::new(), submitted: None }
        } else if c == '\u{2193}' {
            let erase = self.line.len();
            if self.pos > 0 {
                self.pos = self.pos - 1;
            }
            if self.pos > 0 {
                self.line = copy_chars(&self.history[self.pos - 1]);
            } else {
                self.line = Vec::new();
            }
            proof {
                assert(self.state().history =~= s0.history);
            }
            let text = string_of(self.line.as_slice());
            Echo { erase, text, submitted: None }
        } else if c == '\u{2191}' {
            if self.pos < self.history.len() {
                let erase = self.line.len();
                self.line = copy_chars(&self.history[self.pos]);
                self.pos = self.pos + 1;
                proof {
                    assert(self.state().history =~= s0.history);
                }
                let text = string_of(self.line.as_slice());
                Echo { erase, text, submitted: None }
            } else {
                Echo { erase: 0, text: String::new(), submitted: None }
            }
        } else {
            self.line.push(c);
            proof {
                assert(self.state().history =~= s0.history);
            }
            let mut text = String::new();
            crate::text::string_push(&mut text, c);
            proof {
                assert(text@ =~= seq![c]);
            }
            Echo { erase: 0, text, submitted: None }
        }
    }
}

/// Up and then down give back the line and the position that were there,
/// when the line was the one the position shows and an older line exists.
pub proof fn lemma_up_down_restores(s: EditorState)
    requires
        0 <= s.pos < s.history.len(),
        s.line == shown_line(s),
    ensures
        edit_step(edit_step(s, '\u{2191}').0, '\u{2193}').0 == s,
{
}

/// Backspace undoes the typing of an ordinary character.
pub proof fn lemma_backspace_undoes_typing(s: EditorState, c: char)
    requires
        c != '\n' && c != '\x08' && c != '\u{2191}' && c != '\u{2193}',
    ensures
        edit_step(edit_step(s, c).0, '\x08').0 == s,
{
    assert(s.line.push(c).drop_last() =~= s.line);
}

/// Enter hands on the line typed; a non-empty line becomes the newest
/// history entry, the history never holds more than its limit, and the
/// next line starts empty at the newest end of the history.
pub proof fn lemma_enter_records_line(s: EditorState)
    requires
        s.history.len() <= HISTORY_LIMIT,
    ensures
        edit_step(s, '\n').3 == Some(s.line),
        edit_step(s, '\n').0.history.len() <= HISTORY_LIMIT,
        edit_step(s, '\n').0.line.len() == 0,
        edit_step(s, '\n').0.pos == 0,
        s.line.len() > 0 ==> edit_step(s, '\n').0.history[0] == s.line,
        s.line.len() == 0 ==> edit_step(s, '\n').0.history == s.history,
{
}

/// How `numeric_sort::cmp` orders two names: below zero when the first
/// sorts before the second, zero when they sort together, above zero after.
/// Names sort by their runs of digits as numbers and their other runs as
/// text.
pub uninterp spec fn numeric_order(a: Seq<char>, b: Seq<char>) -> int;

/// The texts of a list of strings.
pub open spec fn texts(v: Seq<String>) -> Seq<Seq<char>> {
    v.map_values(|s: String| s@)
}

/// `numeric_sort::sort_unstable`: sorts names in place by `numeric_sort::cmp`.
/// Claimed: the names are the same, and each sorts before or with the next.
/// Which of two names that sort together comes first is not stated.
#[verifier::external_body]
fn numeric_sort_unstable(names: &mut Vec<String>)
    ensures
        texts(final(names)@).to_multiset() == texts(old(names)@).to_multiset(),
        final(names)@.len() == old(names)@.len(),
        forall|i: int|
            0 <= i < final(names)@.len() - 1 ==> numeric_order(
                #[trigger] final(names)@[i]@,
                final(names)@[i + 1]@,
            ) <= 0,
{
    numeric_sort::sort_unstable(names)
}

/// The names that the children of a folder have, in the order `ls` prints
/// them: the children without a readable name are left out, and the rest
/// sorted as `numeric_sort` sorts.
pub fn ls_listing(children: Vec<Option<String>>) -> (names: Vec<String>)
    ensures
        texts(names@).to_multiset() == children@.filter(|c: Option<String>| c is Some).map_values(
            |c: Option<String>| c->0@,
        ).to_multiset(),
        forall|i: int|
            0 <= i < names@.len() - 1 ==> numeric_order(
                #[trigger] names@[i]@,
                names@[i + 1]@,
            ) <= 0,
{
    let ghost cs = children@;
    let mut names: Vec<String> = Vec::new();
    let mut rest = children;
    let mut i: usize = 0;
    let n = rest.len();
    while i < n
        invariant
            n == cs.len(),
            rest@.len() == n,
            i <= n,
            forall|j: int| i <= j < n ==> rest@[j] == cs[j],
            texts(names@) == cs.take(i as int).filter(|c: Option<String>| c is Some).map_values(
                |c: Option<String>| c->0@,
            ),
        decreases n - i,
    {
        let mut c: Option<String> = None;
        std::mem::swap(&mut c, &mut rest[i]);
        reveal(Seq::filter);
        assert(cs.take(i + 1).drop_last() =~= cs.take(i as int));
        let ghost f = cs.take(i as int).filter(|c: Option<String>| c is Some);
        assert(cs.take(i + 1).last() == cs[i as int]);
        match c {
            Some(name) => {
                assert(cs.take(i + 1).filter(|c: Option<String>| c is Some) == f.push(cs[i as int]));
                assert(f.push(cs[i as int]).map_values(|c: Option<String>| c->0@) =~= f.map_values(
                    |c: Option<String>| c->0@,
                ).push(name@));
                let ghost before = names@;
                let ghost nm = name@;
                names.push(name);
                assert(texts(names@) =~= texts(before).push(nm));
            },
            None => {
                assert(cs.take(i + 1).filter(|c: Option<String>| c is Some) == f);
            },
        }
        i += 1;
    }
    assert(cs.take(n as int) =~= cs);
    numeric_sort_unstable(&mut names);
    names
}

} // verus!
