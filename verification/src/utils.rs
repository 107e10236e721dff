//! Helpers on text: decimal numerals, comma-separated lists, id tokens,
//! and the breaking of long lines.

use crate::error::{ConnectStage, StoreError};
use crate::structs::Config;
use vstd::prelude::*;

verus! {

/// The character that writes the digit `d`.
pub open spec fn digit_char(d: int) -> char {
    if d == 0 {
        '0'
    } else if d == 1 {
        '1'
    } else if d == 2 {
        '2'
    } else if d == 3 {
        '3'
    } else if d == 4 {
        '4'
    } else if d == 5 {
        '5'
    } else if d == 6 {
        '6'
    } else if d == 7 {
        '7'
    } else if d == 8 {
        '8'
    } else {
        '9'
    }
}

/// The decimal numeral of `n`, without sign or leading zeros.
pub open spec fn decimal(n: nat) -> Seq<char>
    decreases n,
{
    if n < 10 {
        seq![digit_char(n as int)]
    } else {
        decimal(n / 10).push(digit_char((n % 10) as int))
    }
}

fn digit_text(d: usize) -> (s: &'static str)
    requires
        d < 10,
    ensures
        s@ == seq![digit_char(d as int)],
{
    proof {
        reveal_strlit("0");
        reveal_strlit("1");
        reveal_strlit("2");
        reveal_strlit("3");
        reveal_strlit("4");
        reveal_strlit("5");
        reveal_strlit("6");
        reveal_strlit("7");
        reveal_strlit("8");
        reveal_strlit("9");
    }
    let s = if d == 0 {
        "0"
    } else if d == 1 {
        "1"
    } else if d == 2 {
        "2"
    } else if d == 3 {
        "3"
    } else if d == 4 {
        "4"
    } else if d == 5 {
        "5"
    } else if d == 6 {
        "6"
    } else if d == 7 {
        "7"
    } else if d == 8 {
        "8"
    } else {
        "9"
    };
    assert(s@ =~= seq![digit_char(d as int)]);
    s
}

/// Writes `n` in decimal.
pub fn decimal_string(n: usize) -> (s: String)
    ensures
        s@ == decimal(n as nat),
    decreases n,
{
    if n < 10 {
        String::from_str(digit_text(n))
    } else {
        let mut s = decimal_string(n / 10);
        s.append(digit_text(n % 10));
        assert(s@ =~= decimal(n as nat));
        s
    }
}

/// The index of the last `c` in `s`, or -1 where it has none.
pub open spec fn last_of(s: Seq<char>, c: char) -> int
    decreases s.len(),
{
    if s.len() == 0 {
        -1
    } else if s.last() == c {
        s.len() - 1
    } else {
        last_of(s.drop_last(), c)
    }
}

/// The pieces of `s` between its commas, in order. A text without a comma
/// is one piece; two commas in a row hold an empty piece between them.
pub open spec fn split_commas(s: Seq<char>) -> Seq<Seq<char>>
    decreases s.len(),
{
    let j = last_of(s, ',');
    if 0 <= j < s.len() {
        split_commas(s.subrange(0, j)).push(s.subrange(j + 1, s.len() as int))
    } else {
        seq![s]
    }
}

/// `last_of` finds a `c` after which none follows, or reports that there
/// is none at all.
pub proof fn lemma_last_of(s: Seq<char>, c: char)
    ensures
        -1 <= last_of(s, c) < s.len(),
        last_of(s, c) >= 0 ==> s[last_of(s, c)] == c,
        forall|k: int| last_of(s, c) < k < s.len() ==> s[k] != c,
    decreases s.len(),
{
    if s.len() > 0 && s.last() != c {
        let front = s.drop_last();
        lemma_last_of(front, c);
        assert forall|k: int| last_of(s, c) < k < s.len() implies s[k] != c by {
            if k < front.len() {
                assert(front[k] == s[k]);
            }
        }
    }
}

/// A `c` at `j` with none after it is the last one; and where there is
/// none, `j` is -1.
pub proof fn lemma_last_of_is(s: Seq<char>, c: char, j: int)
    requires
        -1 <= j < s.len(),
        j >= 0 ==> s[j] == c,
        forall|k: int| j < k < s.len() ==> s[k] != c,
    ensures
        last_of(s, c) == j,
{
    lemma_last_of(s, c);
}

/// Splits a comma-separated argument into its pieces.
pub fn parse_args<'a>(args: &'a String) -> (tokens: Vec<&'a str>)
    ensures
        tokens.deep_view() == split_commas(args@),
{
    let text: &'a str = args.as_str();
    let n: usize = text.unicode_len();
    let mut tokens: Vec<&'a str> = Vec::new();
    let mut start: usize = 0;
    let mut i: usize = 0;
    while i < n
        invariant
            n == text@.len(),
            start <= i <= n,
            forall|k: int| start <= k < i ==> text@[k] != ',',
            start > 0 ==> text@[start - 1] == ',',
            start > 0 ==> tokens.deep_view() == split_commas(text@.subrange(0, start - 1)),
            start == 0 ==> tokens@.len() == 0,
        decreases n - i,
    {
        if text.get_char(i) == ',' {
            let piece: &'a str = text.substring_char(start, i);
            proof {
                let head = text@.subrange(0, i as int);
                lemma_last_of_is(head, ',', start as int - 1);
                if start > 0 {
                    assert(head.subrange(0, start as int - 1) =~= text@.subrange(
                        0,
                        start as int - 1,
                    ));
                }
                assert(head.subrange(start as int, i as int) =~= piece@);
                assert(tokens.deep_view().push(piece@) =~= split_commas(head)) by {
                    if start == 0 {
                        assert(tokens.deep_view() =~= Seq::<Seq<char>>::empty());
                    }
                }
            }
            let ghost before = tokens.deep_view();
            tokens.push(piece);
            assert(tokens.deep_view() =~= before.push(piece@));
            start = i + 1;
        }
        i += 1;
    }
    let piece: &'a str = text.substring_char(start, n);
    proof {
        lemma_last_of_is(text@, ',', start as int - 1);
        if start == 0 {
            assert(tokens.deep_view() =~= Seq::<Seq<char>>::empty());
            assert(piece@ =~= text@);
        }
    }
    let ghost before = tokens.deep_view();
    tokens.push(piece);
    assert(tokens.deep_view() =~= before.push(piece@));
    assert(text@ == args@);
    tokens
}

/// The value of the digit that `c` writes, if it writes one.
pub open spec fn digit_of(c: char) -> Option<int> {
    if c == '0' {
        Some(0)
    } else if c == '1' {
        Some(1)
    } else if c == '2' {
        Some(2)
    } else if c == '3' {
        Some(3)
    } else if c == '4' {
        Some(4)
    } else if c == '5' {
        Some(5)
    } else if c == '6' {
        Some(6)
    } else if c == '7' {
        Some(7)
    } else if c == '8' {
        Some(8)
    } else if c == '9' {
        Some(9)
    } else {
        None
    }
}

/// Whether `s` is made of decimal digits only, and of at least one.
pub open spec fn is_numeral(s: Seq<char>) -> bool {
    s.len() > 0 && forall|k: int| 0 <= k < s.len() ==> digit_of(#[trigger] s[k]) is Some
}

/// The number that a text of digits writes; 0 for the empty text.
pub open spec fn numeral_value(s: Seq<char>) -> nat
    decreases s.len(),
{
    if s.len() == 0 {
        0
    } else {
        let d = match digit_of(s.last()) {
            Some(d) => d as nat,
            None => 0,
        };
        numeral_value(s.drop_last()) * 10 + d
    }
}

/// `s` without the plus sign that may lead it.
pub open spec fn unsigned(s: Seq<char>) -> Seq<char> {
    if s.len() > 0 && s[0] == '+' {
        s.drop_first()
    } else {
        s
    }
}

/// The id that a token names: its digits, read in decimal after an optional
/// leading `+`, where they fit the machine's word. Anything else names none.
pub open spec fn token_id(s: Seq<char>) -> Option<usize> {
    let digits = unsigned(s);
    if is_numeral(digits) && numeral_value(digits) <= usize::MAX {
        Some(numeral_value(digits) as usize)
    } else {
        None
    }
}

/// Reading more digits never gives a smaller number.
proof fn lemma_numeral_value_grows(s: Seq<char>, k: int)
    requires
        0 <= k <= s.len(),
    ensures
        numeral_value(s.subrange(0, k)) <= numeral_value(s),
    decreases s.len() - k,
{
    if k == s.len() {
        assert(s.subrange(0, k) =~= s);
    } else {
        lemma_numeral_value_grows(s.drop_last(), k);
        assert(s.drop_last().subrange(0, k) =~= s.subrange(0, k));
    }
}

fn digit_value(c: char) -> (d: Option<usize>)
    ensures
        match d {
            Some(v) => digit_of(c) == Some(v as int) && v < 10,
            None => digit_of(c) is None,
        },
{
    if c == '0' {
        Some(0)
    } else if c == '1' {
        Some(1)
    } else if c == '2' {
        Some(2)
    } else if c == '3' {
        Some(3)
    } else if c == '4' {
        Some(4)
    } else if c == '5' {
        Some(5)
    } else if c == '6' {
        Some(6)
    } else if c == '7' {
        Some(7)
    } else if c == '8' {
        Some(8)
    } else if c == '9' {
        Some(9)
    } else {
        None
    }
}

/// Reads one id token.
pub fn parse_id(token: &str) -> (r: Result<usize, StoreError>)
    ensures
        match r {
            Ok(id) => token_id(token@) == Some(id),
            Err(e) => e == StoreError::MalformedInput && token_id(token@) is None,
        },
{
    let n: usize = token.unicode_len();
    let first: usize = if n > 0 && token.get_char(0) == '+' {
        1
    } else {
        0
    };
    let ghost digits = unsigned(token@);
    assert(digits =~= token@.subrange(first as int, n as int));
    if first == n {
        return Err(StoreError::MalformedInput);
    }
    let mut value: usize = 0;
    let mut i: usize = first;
    while i < n
        invariant
            n == token@.len(),
            first <= i <= n,
            digits == token@.subrange(first as int, n as int),
            digits == unsigned(token@),
            forall|k: int| 0 <= k < i - first ==> digit_of(#[trigger] digits[k]) is Some,
            value == numeral_value(digits.subrange(0, i - first)),
        decreases n - i,
    {
        let c: char = token.get_char(i);
        assert(c == digits[i - first]);
        let ghost head = digits.subrange(0, i - first + 1);
        assert(head.drop_last() =~= digits.subrange(0, i - first));
        assert(head.last() == c);
        match digit_value(c) {
            None => {
                assert(digit_of(digits[i - first]) is None);
                return Err(StoreError::MalformedInput);
            },
            Some(d) => {
                proof {
                    lemma_numeral_value_grows(digits, i - first + 1);
                    assert(numeral_value(head) == value * 10 + d);
                }
                let scaled: usize = match value.checked_mul(10) {
                    Some(v) => v,
                    None => {
                        return Err(StoreError::MalformedInput);
                    },
                };
                value = match scaled.checked_add(d) {
                    Some(v) => v,
                    None => {
                        return Err(StoreError::MalformedInput);
                    },
                };
            },
        }
        i += 1;
    }
    assert(digits.subrange(0, n - first) =~= digits);
    Ok(value)
}

/// The ids that a list of tokens names, in order; tokens that name none
/// are left out.
pub open spec fn parsed_ids(tokens: Seq<Seq<char>>) -> Seq<usize>
    decreases tokens.len(),
{
    if tokens.len() == 0 {
        Seq::empty()
    } else {
        let rest = parsed_ids(tokens.drop_last());
        match token_id(tokens.last()) {
            Some(id) => rest.push(id),
            None => rest,
        }
    }
}

/// The tokens of a list that are neither empty nor an id, in order.
pub open spec fn malformed(tokens: Seq<Seq<char>>) -> Seq<Seq<char>>
    decreases tokens.len(),
{
    if tokens.len() == 0 {
        Seq::empty()
    } else {
        let rest = malformed(tokens.drop_last());
        if tokens.last().len() > 0 && token_id(tokens.last()) is None {
            rest.push(tokens.last())
        } else {
            rest
        }
    }
}

/// Reads the ids out of a list of tokens. Empty tokens and tokens that are
/// no number are skipped; the others keep their order.
pub fn parse_ids(ids: Vec<&str>) -> (parsed: Vec<usize>)
    ensures
        parsed@ == parsed_ids(ids.deep_view()),
{
    let mut parsed: Vec<usize> = Vec::new();
    let mut i: usize = 0;
    while i < ids.len()
        invariant
            i <= ids.len(),
            parsed@ == parsed_ids(ids.deep_view().subrange(0, i as int)),
        decreases ids.len() - i,
    {
        let ghost head = ids.deep_view().subrange(0, i + 1);
        assert(head.drop_last() =~= ids.deep_view().subrange(0, i as int));
        assert(head.last() == ids[i as int]@);
        match parse_id(ids[i]) {
            Ok(id) => {
                parsed.push(id);
            },
            Err(_) => {},
        }
        i += 1;
    }
    assert(ids.deep_view().subrange(0, ids.len() as int) =~= ids.deep_view());
    parsed
}

/// The tokens of a list that `parse_ids` skipped although they are not
/// empty: the ones to warn about.
pub fn malformed_tokens<'a>(ids: &Vec<&'a str>) -> (bad: Vec<&'a str>)
    ensures
        bad.deep_view() == malformed(ids.deep_view()),
{
    let mut bad: Vec<&'a str> = Vec::new();
    let mut i: usize = 0;
    while i < ids.len()
        invariant
            i <= ids.len(),
            bad.deep_view() == malformed(ids.deep_view().subrange(0, i as int)),
        decreases ids.len() - i,
    {
        let ghost head = ids.deep_view().subrange(0, i + 1);
        assert(head.drop_last() =~= ids.deep_view().subrange(0, i as int));
        assert(head.last() == ids[i as int]@);
        let token: &'a str = ids[i];
        if token.unicode_len() > 0 && parse_id(token).is_err() {
            let ghost before = bad.deep_view();
            bad.push(token);
            assert(bad.deep_view() =~= before.push(token@));
        }
        i += 1;
    }
    assert(ids.deep_view().subrange(0, ids.len() as int) =~= ids.deep_view());
    bad
}

/// The warning about a token that should have been an id.
pub open spec fn warning_about(token: Seq<char>) -> Seq<char> {
    "You can only use Ids, this is not: "@ + token
}

/// The warnings about the pieces of `args` that are neither empty nor an
/// id, in order.
pub open spec fn warnings_of(args: Seq<char>) -> Seq<Seq<char>> {
    let bad = malformed(split_commas(args));
    Seq::new(bad.len(), |i: int| warning_about(bad[i]))
}

/// The warnings to give about a comma-separated list of ids.
pub fn id_warnings(args: &String) -> (warnings: Vec<String>)
    ensures
        warnings.deep_view() == warnings_of(args@),
{
    let tokens = parse_args(args);
    let bad = malformed_tokens(&tokens);
    let mut warnings: Vec<String> = Vec::new();
    let mut i: usize = 0;
    while i < bad.len()
        invariant
            i <= bad.len(),
            bad.deep_view() == malformed(split_commas(args@)),
            warnings.len() == i,
            forall|j: int|
                0 <= j < i ==> warnings.deep_view()[j] == warning_about(bad.deep_view()[j]),
        decreases bad.len() - i,
    {
        let ghost prev = warnings.deep_view();
        let text = String::from_str("You can only use Ids, this is not: ").concat(bad[i]);
        assert(bad.deep_view()[i as int] == bad[i as int]@);
        warnings.push(text);
        assert(warnings.deep_view() =~= prev.push(text@));
        i += 1;
    }
    assert(bad.deep_view().len() == bad.len());
    assert(warnings.deep_view() =~= warnings_of(args@));
    warnings
}

/// `line` from `pos` on, broken into lines of at most `max` characters.
/// Where more than `max` characters are left, the next `max` are looked at:
/// the line ends before their last space, which is dropped, or after all of
/// them where they hold no space.
pub open spec fn broken_from(line: Seq<char>, max: nat, pos: nat) -> Seq<char>
    decreases line.len() - pos,
{
    if max == 0 || pos + max >= line.len() {
        line.subrange(pos as int, line.len() as int)
    } else {
        let window = line.subrange(pos as int, (pos + max) as int);
        let j = last_of(window, ' ');
        if 0 <= j < max {
            window.subrange(0, j) + seq!['\n'] + broken_from(line, max, (pos + j + 1) as nat)
        } else {
            window + seq!['\n'] + broken_from(line, max, pos + max)
        }
    }
}

/// `line` broken into lines of at most `max` characters.
pub open spec fn broken(line: Seq<char>, max: nat) -> Seq<char> {
    broken_from(line, max, 0)
}

/// Breaks `line` into lines of at most `max_line_length` characters, at
/// spaces where there are any. A line shorter than that comes back as it
/// is.
pub fn break_line(line: String, max_line_length: &usize) -> (formatted: String)
    requires
        *max_line_length > 0,
    ensures
        formatted@ == broken(line@, *max_line_length as nat),
{
    let max: usize = *max_line_length;
    let text: &str = line.as_str();
    let n: usize = text.unicode_len();
    let mut formatted: String = String::new();
    let mut position: usize = 0;
    proof {
        reveal_strlit("\n");
    }
    while n - position > max
        invariant
            max > 0,
            n == line@.len(),
            text@ == line@,
            position <= n,
            "\n"@ == seq!['\n'],
            formatted@ + broken_from(line@, max as nat, position as nat) == broken(
                line@,
                max as nat,
            ),
        decreases n - position,
    {
        let end: usize = position + max;
        let ghost window = line@.subrange(position as int, end as int);
        let ghost before = formatted@;
        let mut k: usize = end;
        while k > position && text.get_char(k - 1) != ' '
            invariant
                position <= k <= end,
                end < n,
                n == text@.len(),
                text@ == line@,
                forall|j: int| k <= j < end ==> line@[j] != ' ',
            decreases k,
        {
            k -= 1;
        }
        if k > position {
            let piece: &str = text.substring_char(position, k - 1);
            proof {
                lemma_last_of_is(window, ' ', k - 1 - position);
                assert(piece@ =~= window.subrange(0, k - 1 - position));
            }
            formatted.append(piece);
            formatted.append("\n");
            assert(formatted@ + broken_from(line@, max as nat, k as nat) =~= before + broken_from(
                line@,
                max as nat,
                position as nat,
            ));
            position = k;
        } else {
            let piece: &str = text.substring_char(position, end);
            proof {
                lemma_last_of_is(window, ' ', -1);
                assert(piece@ =~= window);
            }
            formatted.append(piece);
            formatted.append("\n");
            assert(formatted@ + broken_from(line@, max as nat, end as nat) =~= before + broken_from(
                line@,
                max as nat,
                position as nat,
            ));
            position = end;
        }
    }
    formatted.append(text.substring_char(position, n));
    formatted
}

/// The path of the document on the remote host: `tasks.json` in the
/// configured folder, or alone where no folder is configured.
pub open spec fn remote_path_of(ssh_file_path: Seq<char>) -> Seq<char> {
    if ssh_file_path.len() == 0 {
        "tasks.json"@
    } else {
        ssh_file_path + "/"@ + "tasks.json"@
    }
}

/// The path of the document on the remote host.
pub fn get_remote_path(config: &Config) -> (file_path: String)
    ensures
        file_path@ == remote_path_of(config.ssh_file_path@),
{
    if config.ssh_file_path.as_str().is_empty() {
        String::from_str("tasks.json")
    } else {
        config.ssh_file_path.clone().concat("/").concat("tasks.json")
    }
}

/// What to do about the stored document before a command can run.
#[derive(Debug, Clone, Copy, PartialEq, Eq, Structural)]
pub enum LoadStep {
    /// The document is there: read it.
    Read,
    /// There is no document: write an empty one, and go on with an empty
    /// collection.
    CreateEmpty,
    /// There is no document and none is wanted: give up.
    Fail(StoreError),
}

/// How a local document is to be loaded.
#[derive(Debug, Clone, Copy, PartialEq, Eq, Structural)]
pub struct LoadPlan {
    /// Whether the folder has to be created first.
    pub create_folder: bool,
    pub step: LoadStep,
}

/// The step that loads a document which is there or not, on this machine
/// or on another, for a caller that wants a missing one created or not.
pub open spec fn load_step_for(file_exists: bool, create_file: bool, remote: bool) -> LoadStep {
    if file_exists {
        LoadStep::Read
    } else if create_file {
        LoadStep::CreateEmpty
    } else {
        LoadStep::Fail(StoreError::NotFound { remote })
    }
}

/// Decides how the local document is loaded: a missing folder is created;
/// a missing document is created empty where `create_file` is set, and is
/// an error where it is not.
pub fn get_or_create_data_file(folder_exists: bool, file_exists: bool, create_file: bool) -> (plan:
    LoadPlan)
    ensures
        plan.create_folder == !folder_exists,
        plan.step == load_step_for(file_exists, create_file, false),
{
    let step = if file_exists {
        LoadStep::Read
    } else if create_file {
        LoadStep::CreateEmpty
    } else {
        LoadStep::Fail(StoreError::NotFound { remote: false })
    };
    LoadPlan { create_folder: !folder_exists, step }
}

/// Decides how the remote document is loaded. `session` tells whether the
/// session to the host stands, or at which stage opening it failed;
/// `file_exists` tells whether the document could be opened there.
pub fn get_or_create_data_file_ssh(
    session: Result<(), ConnectStage>,
    file_exists: bool,
    create_file: bool,
) -> (step: LoadStep)
    ensures
        step == match session {
            Ok(()) => load_step_for(file_exists, create_file, true),
            Err(stage) => LoadStep::Fail(StoreError::ConnectionFailure { stage }),
        },
{
    match session {
        Ok(()) => if file_exists {
            LoadStep::Read
        } else if create_file {
            LoadStep::CreateEmpty
        } else {
            LoadStep::Fail(StoreError::NotFound { remote: true })
        },
        Err(stage) => LoadStep::Fail(StoreError::ConnectionFailure { stage }),
    }
}

} // verus!
