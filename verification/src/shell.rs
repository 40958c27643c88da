use vstd::prelude::*;
use vstd::string::StrSliceExecFns;
use vstd::utf8::{
    decode_utf8, encode_utf8, encode_utf8_decode_utf8, encode_utf8_valid_utf8, is_ascii_chars,
    is_ascii_chars_encode_utf8, valid_utf8,
};

verus! {

/// Longest line, in bytes, that the shell keeps.
pub const MAX_LINE_LENGTH: usize = 64;

/// The line being typed and whether it has been submitted.
pub struct ShellView {
    pub line: Seq<u8>,
    pub ready: bool,
}

/// The shell's line editor: the bytes typed so far, and whether the line has
/// been submitted and waits to be taken.
#[derive(Clone, Copy)]
pub struct ShellState {
    buffer: [u8; MAX_LINE_LENGTH],
    length: usize,
    ready: bool,
}

impl View for ShellState {
    type V = ShellView;

    closed spec fn view(&self) -> ShellView {
        ShellView { line: self.buffer@.take(self.length as int), ready: self.ready }
    }
}

/// A submitted line, taken out of the shell.
#[derive(Clone, Copy)]
pub struct LineBuffer {
    bytes: [u8; MAX_LINE_LENGTH],
    length: usize,
}

impl View for LineBuffer {
    type V = Seq<u8>;

    closed spec fn view(&self) -> Seq<u8> {
        self.bytes@.take(self.length as int)
    }
}

/// Calls `core::str::from_utf8`, which accepts exactly the byte sequences
/// that are valid UTF-8 and then gives the string they encode.
#[verifier::external_body]
pub(crate) fn str_from_utf8(v: &[u8]) -> (s: Option<&str>)
    ensures
        s is Some <==> valid_utf8(v@),
        s matches Some(t) ==> t@ == decode_utf8(v@),
{
    core::str::from_utf8(v).ok()
}

/// The characters whose codes are the bytes `b`.
pub open spec fn ascii_chars(b: Seq<u8>) -> Seq<char> {
    b.map_values(|x: u8| (x as u32) as char)
}

/// Bytes below 128 are valid UTF-8, each byte encoding the character of that code.
pub proof fn lemma_ascii_bytes_decode(b: Seq<u8>)
    requires
        forall|i: int| 0 <= i < b.len() ==> #[trigger] b[i] < 128,
    ensures
        valid_utf8(b),
        decode_utf8(b) == ascii_chars(b),
{
    let chars = ascii_chars(b);
    assert(is_ascii_chars(chars));
    is_ascii_chars_encode_utf8(chars);
    assert forall|i: int| 0 <= i < b.len() implies encode_utf8(chars)[i] == b[i] by {
        assert(chars[i] as u8 == encode_utf8(chars)[i]);
    }
    assert(encode_utf8(chars) =~= b);
    encode_utf8_valid_utf8(chars);
    encode_utf8_decode_utf8(chars);
}

impl LineBuffer {
    /// Holds at most `MAX_LINE_LENGTH` bytes.
    pub closed spec fn wf(&self) -> bool {
        self.length <= MAX_LINE_LENGTH
    }

    /// An empty line.
    pub fn new() -> (line: Self)
        ensures
            line.wf(),
            line@ == Seq::<u8>::empty(),
    {
        let line = LineBuffer { bytes: [0u8; MAX_LINE_LENGTH], length: 0 };
        assert(line@ =~= Seq::<u8>::empty());
        line
    }

    /// The line as text: the string its bytes encode when they are valid
    /// UTF-8, and the empty string when they are not.
    pub fn as_str(&self) -> (s: &str)
        requires
            self.wf(),
        ensures
            valid_utf8(self@) ==> s@ == decode_utf8(self@),
            !valid_utf8(self@) ==> s@ == Seq::<char>::empty(),
            (forall|i: int| 0 <= i < self@.len() ==> #[trigger] self@[i] < 128) ==> s@ == ascii_chars(self@),
    {
        proof {
            if forall|i: int| 0 <= i < self@.len() ==> #[trigger] self@[i] < 128 {
                lemma_ascii_bytes_decode(self@);
            }
        }
        let bytes = vstd::slice::slice_subrange(self.bytes.as_slice(), 0, self.length);
        match str_from_utf8(bytes) {
            Some(s) => s,
            None => {
                let empty = "";
                proof { reveal_strlit(""); }
                empty
            },
        }
    }
}

impl ShellState {
    /// The line holds at most `MAX_LINE_LENGTH` bytes.
    pub closed spec fn wf(&self) -> bool {
        self.length <= MAX_LINE_LENGTH
    }

    /// An empty line, not submitted.
    pub fn new() -> (shell: Self)
        ensures
            shell.wf(),
            shell@.line == Seq::<u8>::empty(),
            !shell@.ready,
    {
        let shell = ShellState { buffer: [0u8; MAX_LINE_LENGTH], length: 0, ready: false };
        assert(shell@.line =~= Seq::<u8>::empty());
        shell
    }

    /// Appends `byte` to the line when it holds fewer than `MAX_LINE_LENGTH`
    /// bytes; a full line stays as it is.
    pub fn push_byte(&mut self, byte: u8)
        requires
            old(self).wf(),
        ensures
            final(self).wf(),
            final(self)@.ready == old(self)@.ready,
            old(self)@.line.len() < MAX_LINE_LENGTH ==> final(self)@.line == old(self)@.line.push(byte),
            old(self)@.line.len() >= MAX_LINE_LENGTH ==> final(self)@.line == old(self)@.line,
    {
        if self.length >= MAX_LINE_LENGTH {
            return;
        }
        self.buffer[self.length] = byte;
        self.length += 1;
        assert(self@.line =~= old(self)@.line.push(byte));
    }

    /// Removes the last byte of the line, if there is one.
    pub fn pop_byte(&mut self)
        requires
            old(self).wf(),
        ensures
            final(self).wf(),
            final(self)@.ready == old(self)@.ready,
            old(self)@.line.len() > 0 ==> final(self)@.line == old(self)@.line.drop_last(),
            old(self)@.line.len() == 0 ==> final(self)@.line == old(self)@.line,
    {
        if self.length == 0 {
            return;
        }
        self.length -= 1;
        assert(self@.line =~= old(self)@.line.drop_last());
    }

    /// Takes the submitted line out, leaving an empty line that is not
    /// submitted; `None`, with nothing changed, while no line is submitted.
    pub fn take_line(&mut self) -> (line: Option<LineBuffer>)
        requires
            old(self).wf(),
        ensures
            final(self).wf(),
            !old(self)@.ready ==> line is None && final(self)@ == old(self)@,
            old(self)@.ready ==> (line matches Some(l) && l.wf() && l@ == old(self)@.line),
            old(self)@.ready ==> final(self)@.line == Seq::<u8>::empty() && !final(self)@.ready,
    {
        if !self.ready {
            return None;
        }
        let mut line = LineBuffer::new();
        line.length = self.length;
        let mut i: usize = 0;
        while i < self.length
            invariant
                self.length <= MAX_LINE_LENGTH,
                line.length == self.length,
                i <= self.length,
                forall|j: int| 0 <= j < i ==> line.bytes@[j] == self.buffer@[j],
            decreases self.length - i,
        {
            line.bytes[i] = self.buffer[i];
            i = i + 1;
        }
        assert(line@ =~= self@.line);
        self.length = 0;
        self.ready = false;
        assert(self@.line =~= Seq::<u8>::empty());
        Some(line)
    }
}

/// A decoded key press: a character, or a key that has none.
#[derive(Clone, Copy)]
pub enum Key {
    Unicode(char),
    RawKey,
}

/// What the screen shows in answer to a key press.
#[derive(Clone, Copy, PartialEq, Eq, Structural, Debug)]
pub enum KeyEffect {
    /// Nothing is shown.
    Nothing,
    /// The character is echoed.
    Echo(char),
    /// The last character on screen is erased.
    Backspace,
    /// The cursor moves to a new line.
    Newline,
}

/// Whether `c` is a control character (general category Cc).
pub open spec fn is_control(c: char) -> bool {
    (c as u32) <= 0x1f || (0x7f <= (c as u32) && (c as u32) <= 0x9f)
}

/// Whether `c` is an ASCII character that is not a control character.
pub open spec fn is_printable_ascii(c: char) -> bool {
    (c as u32) < 0x80 && !is_control(c)
}

/// Whether the key submits the line (Enter).
pub open spec fn is_submit_key(key: Key) -> bool {
    key == Key::Unicode('\n') || key == Key::Unicode('\r')
}

/// Whether the key erases a character (Backspace or Delete).
pub open spec fn is_erase_key(key: Key) -> bool {
    key == Key::Unicode('\u{8}') || key == Key::Unicode('\u{7f}')
}

/// The line editor's answer to a key press: the new state and what the
/// screen shows. While a submitted line waits to be taken, every key is
/// ignored.
pub open spec fn key_step(s: ShellView, key: Key) -> (ShellView, KeyEffect) {
    if is_submit_key(key) {
        if s.ready {
            (s, KeyEffect::Nothing)
        } else {
            (ShellView { line: s.line, ready: true }, KeyEffect::Newline)
        }
    } else if is_erase_key(key) {
        if s.ready {
            (s, KeyEffect::Nothing)
        } else {
            (ShellView { line: if s.line.len() > 0 { s.line.drop_last() } else { s.line }, ready: false }, KeyEffect::Backspace)
        }
    } else {
        match key {
            Key::Unicode(c) => {
                if is_printable_ascii(c) && !s.ready {
                    (ShellView { line: if s.line.len() < MAX_LINE_LENGTH { s.line.push(((c as u32) % 256) as u8) } else { s.line }, ready: false }, KeyEffect::Echo(c))
                } else {
                    (s, KeyEffect::Nothing)
                }
            },
            Key::RawKey => (s, KeyEffect::Nothing),
        }
    }
}

impl ShellState {
    /// Appends the character's low byte to the line unless a submitted line
    /// waits; returns whether the character is to be echoed.
    pub fn append_character(&mut self, character: char) -> (echo: bool)
        requires
            old(self).wf(),
        ensures
            final(self).wf(),
            echo == !old(self)@.ready,
            old(self)@.ready ==> final(self)@ == old(self)@,
            !old(self)@.ready ==> final(self)@.ready == false,
            !old(self)@.ready && old(self)@.line.len() < MAX_LINE_LENGTH ==> final(self)@.line == old(self)@.line.push(
                (character as u32 % 256) as u8,
            ),
            !old(self)@.ready && old(self)@.line.len() >= MAX_LINE_LENGTH ==> final(self)@.line == old(self)@.line,
    {
        if self.ready {
            return false;
        }
        let code = character as u32;
        let byte = (code % 256) as u8;
        self.push_byte(byte);
        true
    }

    /// Removes the last byte of the line unless a submitted line waits;
    /// returns whether a character is to be erased on screen.
    pub fn erase_character(&mut self) -> (erase: bool)
        requires
            old(self).wf(),
        ensures
            final(self).wf(),
            erase == !old(self)@.ready,
            old(self)@.ready ==> final(self)@ == old(self)@,
            !old(self)@.ready ==> final(self)@.ready == false,
            !old(self)@.ready && old(self)@.line.len() > 0 ==> final(self)@.line == old(self)@.line.drop_last(),
            !old(self)@.ready && old(self)@.line.len() == 0 ==> final(self)@.line == old(self)@.line,
    {
        if self.ready {
            return false;
        }
        self.pop_byte();
        true
    }

    /// Marks the line as submitted unless one already waits; returns whether
    /// a new line is to be shown.
    pub fn submit_line(&mut self) -> (newline: bool)
        requires
            old(self).wf(),
        ensures
            final(self).wf(),
            newline == !old(self)@.ready,
            final(self)@.line == old(self)@.line,
            final(self)@.ready,
    {
        if self.ready {
            return false;
        }
        self.ready = true;
        true
    }
}

/// Whether `c` is a control character (general category Cc).
pub fn char_is_control(c: char) -> (b: bool)
    ensures
        b == is_control(c),
{
    let code = c as u32;
    code <= 0x1f || (0x7f <= code && code <= 0x9f)
}

/// Feeds a key press to the line editor: Enter submits the line, Backspace
/// and Delete erase the last character, and a printable ASCII character is
/// appended; other keys are ignored. Returns what the screen shows.
pub fn handle_key(shell: &mut ShellState, key: Key) -> (effect: KeyEffect)
    requires
        old(shell).wf(),
    ensures
        final(shell).wf(),
        (final(shell)@, effect) == key_step(old(shell)@, key),
{
    match key {
        Key::Unicode(c) => {
            if c == '\n' || c == '\r' {
                if shell.submit_line() {
                    KeyEffect::Newline
                } else {
                    KeyEffect::Nothing
                }
            } else if c == '\u{8}' || c == '\u{7f}' {
                if shell.erase_character() {
                    KeyEffect::Backspace
                } else {
                    KeyEffect::Nothing
                }
            } else if (c as u32) < 0x80 && !char_is_control(c) {
                if shell.append_character(c) {
                    KeyEffect::Echo(c)
                } else {
                    KeyEffect::Nothing
                }
            } else {
                KeyEffect::Nothing
            }
        },
        Key::RawKey => KeyEffect::Nothing,
    }
}

/// Whether `c` has the Unicode White_Space property.
pub open spec fn is_whitespace(c: char) -> bool {
    let v = c as u32;
    ||| 0x9 <= v <= 0xd
    ||| v == 0x20
    ||| v == 0x85
    ||| v == 0xa0
    ||| v == 0x1680
    ||| 0x2000 <= v <= 0x200a
    ||| v == 0x2028
    ||| v == 0x2029
    ||| v == 0x202f
    ||| v == 0x205f
    ||| v == 0x3000
}

/// `s` without its leading whitespace.
pub open spec fn trim_start(s: Seq<char>) -> Seq<char>
    decreases s.len(),
{
    if s.len() > 0 && is_whitespace(s[0]) {
        trim_start(s.drop_first())
    } else {
        s
    }
}

/// `s` without its trailing whitespace.
pub open spec fn trim_end(s: Seq<char>) -> Seq<char>
    decreases s.len(),
{
    if s.len() > 0 && is_whitespace(s.last()) {
        trim_end(s.drop_last())
    } else {
        s
    }
}

/// `s` without its leading and trailing whitespace.
pub open spec fn trim(s: Seq<char>) -> Seq<char> {
    trim_end(trim_start(s))
}

/// Index of the first whitespace character of `s` at or after `i`; the length
/// of `s` when there is none.
pub open spec fn first_whitespace_from(s: Seq<char>, i: int) -> int
    decreases s.len() - i,
{
    if i < 0 || i >= s.len() {
        s.len() as int
    } else if is_whitespace(s[i]) {
        i
    } else {
        first_whitespace_from(s, i + 1)
    }
}

/// A parsed command line, with the text it carries as characters.
pub enum CommandView {
    Empty,
    Help,
    Echo(Seq<char>),
    Clear,
    Unknown(Seq<char>),
}

/// A parsed command line.
pub enum Command<'a> {
    /// The line holds only whitespace.
    Empty,
    /// `help`.
    Help,
    /// `echo`, with the rest of the line.
    Echo(&'a str),
    /// `clear`.
    Clear,
    /// Any other command; carries the whole trimmed line.
    Unknown(&'a str),
}

impl<'a> View for Command<'a> {
    type V = CommandView;

    open spec fn view(&self) -> CommandView {
        match self {
            Command::Empty => CommandView::Empty,
            Command::Help => CommandView::Help,
            Command::Echo(t) => CommandView::Echo(t@),
            Command::Clear => CommandView::Clear,
            Command::Unknown(t) => CommandView::Unknown(t@),
        }
    }
}

/// The command word of a trimmed, non-empty line: everything before its
/// first whitespace character.
pub open spec fn command_word(t: Seq<char>) -> Seq<char> {
    t.take(first_whitespace_from(t, 0))
}

/// The arguments of a trimmed line: what follows the first whitespace
/// character, without leading whitespace; empty when there is no whitespace.
pub open spec fn command_arguments(t: Seq<char>) -> Seq<char> {
    let k = first_whitespace_from(t, 0);
    if k < t.len() {
        trim_start(t.skip(k + 1))
    } else {
        Seq::<char>::empty()
    }
}

/// How a command line parses: the line is trimmed; nothing left is `Empty`;
/// otherwise its first word picks `help`, `clear` or `echo` (with the
/// arguments), and any other word gives `Unknown` with the trimmed line.
pub open spec fn parse(input: Seq<char>) -> CommandView {
    let t = trim(input);
    if t.len() == 0 {
        CommandView::Empty
    } else {
        let word = command_word(t);
        if word == seq!['h', 'e', 'l', 'p'] {
            CommandView::Help
        } else if word == seq!['c', 'l', 'e', 'a', 'r'] {
            CommandView::Clear
        } else if word == seq!['e', 'c', 'h', 'o'] {
            CommandView::Echo(command_arguments(t))
        } else {
            CommandView::Unknown(t)
        }
    }
}

/// Whether `c` has the Unicode White_Space property.
pub fn char_is_whitespace(c: char) -> (b: bool)
    ensures
        b == is_whitespace(c),
{
    let v = c as u32;
    (0x9 <= v && v <= 0xd) || v == 0x20 || v == 0x85 || v == 0xa0 || v == 0x1680 || (0x2000 <= v
        && v <= 0x200a) || v == 0x2028 || v == 0x2029 || v == 0x202f || v == 0x205f || v == 0x3000
}

/// `s` without its leading whitespace.
pub fn str_trim_start<'a>(s: &'a str) -> (t: &'a str)
    ensures
        t@ == trim_start(s@),
{
    let n = s.unicode_len();
    let mut i: usize = 0;
    assert(s@.skip(0) =~= s@);
    while i < n && char_is_whitespace(s.get_char(i))
        invariant
            n == s@.len(),
            i <= n,
            trim_start(s@) == trim_start(s@.skip(i as int)),
        decreases n - i,
    {
        assert(s@.skip(i as int).drop_first() =~= s@.skip(i + 1));
        i = i + 1;
    }
    s.substring_char(i, n)
}

/// `s` without its trailing whitespace.
pub fn str_trim_end<'a>(s: &'a str) -> (t: &'a str)
    ensures
        t@ == trim_end(s@),
{
    let n = s.unicode_len();
    let mut j: usize = n;
    assert(s@.take(n as int) =~= s@);
    while j > 0 && char_is_whitespace(s.get_char(j - 1))
        invariant
            n == s@.len(),
            j <= n,
            trim_end(s@) == trim_end(s@.take(j as int)),
        decreases j,
    {
        assert(s@.take(j as int).drop_last() =~= s@.take(j - 1));
        j = j - 1;
    }
    assert(s@.subrange(0, j as int) =~= s@.take(j as int));
    s.substring_char(0, j)
}

/// `s` without its leading and trailing whitespace.
pub fn str_trim<'a>(s: &'a str) -> (t: &'a str)
    ensures
        t@ == trim(s@),
{
    str_trim_end(str_trim_start(s))
}

/// Whether `a` and `b` hold the same characters.
fn str_equals(a: &str, b: &str) -> (eq: bool)
    ensures
        eq == (a@ == b@),
{
    let n = a.unicode_len();
    if n != b.unicode_len() {
        return false;
    }
    let mut i: usize = 0;
    while i < n
        invariant
            n == a@.len(),
            n == b@.len(),
            i <= n,
            forall|j: int| 0 <= j < i ==> a@[j] == b@[j],
        decreases n - i,
    {
        if a.get_char(i) != b.get_char(i) {
            return false;
        }
        i = i + 1;
    }
    assert(a@ =~= b@);
    true
}

/// Parses a command line: see `parse`.
pub fn parse_command(input: &str) -> (command: Command<'_>)
    ensures
        command@ == parse(input@),
{
    let trimmed = str_trim(input);
    if trimmed.is_empty() {
        return Command::Empty;
    }
    let n = trimmed.unicode_len();
    let mut k: usize = 0;
    while k < n && !char_is_whitespace(trimmed.get_char(k))
        invariant
            n == trimmed@.len(),
            k <= n,
            first_whitespace_from(trimmed@, 0) == first_whitespace_from(trimmed@, k as int),
        decreases n - k,
    {
        k = k + 1;
    }
    let command = trimmed.substring_char(0, k);
    let arguments = if k < n {
        str_trim_start(trimmed.substring_char(k + 1, n))
    } else {
        trimmed.substring_char(n, n)
    };
    assert(command@ =~= command_word(trimmed@));
    assert(k < n ==> trimmed@.subrange(k + 1, n as int) =~= trimmed@.skip(k + 1));
    assert(arguments@ =~= command_arguments(trimmed@));
    proof {
        reveal_strlit("help");
        reveal_strlit("clear");
        reveal_strlit("echo");
        assert("help"@ =~= seq!['h', 'e', 'l', 'p']);
        assert("clear"@ =~= seq!['c', 'l', 'e', 'a', 'r']);
        assert("echo"@ =~= seq!['e', 'c', 'h', 'o']);
    }
    if str_equals(command, "help") {
        Command::Help
    } else if str_equals(command, "clear") {
        Command::Clear
    } else if str_equals(command, "echo") {
        Command::Echo(arguments)
    } else {
        Command::Unknown(trimmed)
    }
}

/// The line editor after the characters `cs` were typed, in order, from `s`.
pub open spec fn type_chars(s: ShellView, cs: Seq<char>) -> ShellView
    decreases cs.len(),
{
    if cs.len() == 0 {
        s
    } else {
        type_chars(key_step(s, Key::Unicode(cs[0])).0, cs.drop_first())
    }
}

/// The bytes that typing the ASCII characters `cs` stores: their codes.
pub open spec fn ascii_bytes(cs: Seq<char>) -> Seq<u8> {
    cs.map_values(|c: char| (c as u32) as u8)
}

/// Erasing right after typing a printable character gives the line back as it was.
pub proof fn lemma_erase_undoes_append(s: ShellView, c: char)
    requires
        !s.ready,
        s.line.len() < MAX_LINE_LENGTH,
        is_printable_ascii(c),
    ensures
        key_step(key_step(s, Key::Unicode(c)).0, Key::Unicode('\u{8}')).0 == s,
{
    let s1 = key_step(s, Key::Unicode(c)).0;
    assert(s1.line.drop_last() =~= s.line);
}

/// While a submitted line waits to be taken, a key press changes nothing and shows nothing.
pub proof fn lemma_submitted_line_ignores_keys(s: ShellView, key: Key)
    requires
        s.ready,
    ensures
        key_step(s, key) == (s, KeyEffect::Nothing),
{
}

/// Typing printable ASCII characters into a line that has room for them
/// appends their codes, and leaves the line unsubmitted.
pub proof fn lemma_type_chars(s: ShellView, cs: Seq<char>)
    requires
        !s.ready,
        s.line.len() + cs.len() <= MAX_LINE_LENGTH,
        forall|i: int| 0 <= i < cs.len() ==> is_printable_ascii(#[trigger] cs[i]),
    ensures
        type_chars(s, cs) == (ShellView { line: s.line + ascii_bytes(cs), ready: false }),
    decreases cs.len(),
{
    if cs.len() > 0 {
        let s1 = key_step(s, Key::Unicode(cs[0])).0;
        assert(is_printable_ascii(cs[0]));
        assert(s1.line == s.line.push((cs[0] as u32) as u8));
        let rest = cs.drop_first();
        assert forall|i: int| 0 <= i < rest.len() implies is_printable_ascii(#[trigger] rest[i]) by {
            assert(rest[i] == cs[i + 1]);
        }
        lemma_type_chars(s1, rest);
        assert(s1.line + ascii_bytes(rest) =~= s.line + ascii_bytes(cs));
    } else {
        assert(s.line + ascii_bytes(cs) =~= s.line);
    }
}

/// Typing up to `MAX_LINE_LENGTH` printable ASCII characters into an empty
/// line and pressing Enter submits a line whose bytes read back, as text,
/// as exactly the characters typed.
pub proof fn lemma_typed_line_reads_back(cs: Seq<char>)
    requires
        cs.len() <= MAX_LINE_LENGTH,
        forall|i: int| 0 <= i < cs.len() ==> is_printable_ascii(#[trigger] cs[i]),
    ensures
        ({
            let typed = type_chars(ShellView { line: Seq::empty(), ready: false }, cs);
            let submitted = key_step(typed, Key::Unicode('\n'));
            &&& submitted == (ShellView { line: ascii_bytes(cs), ready: true }, KeyEffect::Newline)
            &&& forall|i: int| 0 <= i < ascii_bytes(cs).len() ==> #[trigger] ascii_bytes(cs)[i] < 128
            &&& valid_utf8(ascii_bytes(cs))
            &&& decode_utf8(ascii_bytes(cs)) == cs
            &&& ascii_chars(ascii_bytes(cs)) == cs
        }),
{
    let empty = ShellView { line: Seq::empty(), ready: false };
    lemma_type_chars(empty, cs);
    assert(Seq::<u8>::empty() + ascii_bytes(cs) =~= ascii_bytes(cs));
    let b = ascii_bytes(cs);
    assert forall|i: int| 0 <= i < b.len() implies #[trigger] b[i] < 128 by {
        let c = cs[i];
        assert(is_printable_ascii(c));
        assert(b[i] == (c as u32) as u8);
        assert((c as u32) < 128);
    }
    lemma_ascii_bytes_decode(b);
    assert forall|i: int| 0 <= i < cs.len() implies #[trigger] ascii_chars(b)[i] == cs[i] by {
        let c = cs[i];
        assert(is_printable_ascii(c));
        assert(b[i] == (c as u32) as u8);
        assert(ascii_chars(b)[i] == (b[i] as u32) as char);
        vstd::utf8::char_u32_cast(c, b[i] as u32);
    }
    assert(ascii_chars(b) =~= cs);
}

proof fn lemma_trim_start_no_leading(s: Seq<char>)
    ensures
        trim_start(s).len() == 0 || !is_whitespace(trim_start(s)[0]),
    decreases s.len(),
{
    if s.len() > 0 && is_whitespace(s[0]) {
        lemma_trim_start_no_leading(s.drop_first());
    }
}

proof fn lemma_trim_end_prefix(s: Seq<char>)
    ensures
        trim_end(s).len() <= s.len(),
        trim_end(s) == s.take(trim_end(s).len() as int),
        trim_end(s).len() == 0 || !is_whitespace(trim_end(s).last()),
    decreases s.len(),
{
    if s.len() > 0 && is_whitespace(s.last()) {
        lemma_trim_end_prefix(s.drop_last());
        assert(s.drop_last().take(trim_end(s).len() as int) =~= s.take(trim_end(s).len() as int));
    } else {
        assert(s.take(s.len() as int) =~= s);
    }
}

/// Trimming a trimmed string changes nothing.
pub proof fn lemma_trim_idempotent(s: Seq<char>)
    ensures
        trim(trim(s)) == trim(s),
{
    let a = trim_start(s);
    let t = trim_end(a);
    lemma_trim_start_no_leading(s);
    lemma_trim_end_prefix(a);
    if t.len() > 0 {
        assert(t[0] == a[0]);
    }
    assert(trim_start(t) == t);
    assert(trim_end(t) == t);
}

/// Whitespace around a command line does not change how it parses.
pub proof fn lemma_parse_ignores_surrounding_whitespace(input: Seq<char>)
    ensures
        parse(input) == parse(trim(input)),
{
    lemma_trim_idempotent(input);
}

/// Trimming the end of `s` keeps every character up to a non-whitespace one.
proof fn lemma_trim_end_keeps(s: Seq<char>, k: int)
    requires
        0 <= k < s.len(),
        !is_whitespace(s[k]),
    ensures
        trim_end(s).len() > k,
    decreases s.len(),
{
    if s.len() > 0 && is_whitespace(s.last()) {
        lemma_trim_end_keeps(s.drop_last(), k);
    }
}

/// The first whitespace character at or after `i` is at `k` when none lies
/// between `i` and `k`, and `k` is whitespace or the end.
proof fn lemma_first_whitespace_at(s: Seq<char>, i: int, k: int)
    requires
        0 <= i <= k <= s.len(),
        forall|j: int| i <= j < k ==> !is_whitespace(#[trigger] s[j]),
        k == s.len() || is_whitespace(s[k]),
    ensures
        first_whitespace_from(s, i) == k,
    decreases k - i,
{
    if i < k {
        lemma_first_whitespace_at(s, i + 1, k);
    }
}

/// A line that starts with the word `word` (no whitespace in it), followed by
/// nothing or by whitespace and anything, has `word` as its command word.
proof fn lemma_leading_word(word: Seq<char>, rest: Seq<char>)
    requires
        word.len() > 0,
        forall|j: int| 0 <= j < word.len() ==> !is_whitespace(#[trigger] word[j]),
        rest.len() == 0 || is_whitespace(rest[0]),
    ensures
        trim(word + rest).len() > 0,
        command_word(trim(word + rest)) == word,
{
    let s = word + rest;
    let n = word.len() as int;
    assert(!is_whitespace(s[0]));
    assert(trim_start(s) == s);
    lemma_trim_end_prefix(s);
    assert(s[n - 1] == word[n - 1]);
    lemma_trim_end_keeps(s, n - 1);
    let t = trim_end(s);
    assert(t == s.take(t.len() as int));
    assert forall|j: int| 0 <= j < n implies !is_whitespace(#[trigger] t[j]) by {
        assert(t[j] == word[j]);
    }
    if t.len() > n {
        assert(t[n] == rest[0]);
    }
    lemma_first_whitespace_at(t, 0, n);
    assert(t.take(n) =~= word);
}

/// The command is chosen by the first word of the line alone: a line that
/// starts with `help` or `clear`, followed by nothing or by whitespace and
/// anything at all, parses as `Help` or `Clear`, and one that starts with
/// `echo` so parses as an `Echo`; leading whitespace does not matter.
pub proof fn lemma_first_word_picks_command(lead: Seq<char>, rest: Seq<char>)
    requires
        forall|j: int| 0 <= j < lead.len() ==> is_whitespace(#[trigger] lead[j]),
        rest.len() == 0 || is_whitespace(rest[0]),
    ensures
        parse(lead + seq!['h', 'e', 'l', 'p'] + rest) == CommandView::Help,
        parse(lead + seq!['c', 'l', 'e', 'a', 'r'] + rest) == CommandView::Clear,
        parse(lead + seq!['e', 'c', 'h', 'o'] + rest) is Echo,
{
    let help = seq!['h', 'e', 'l', 'p'];
    let clear = seq!['c', 'l', 'e', 'a', 'r'];
    let echo = seq!['e', 'c', 'h', 'o'];
    assert forall|j: int| 0 <= j < help.len() implies !is_whitespace(#[trigger] help[j]) by {}
    assert forall|j: int| 0 <= j < clear.len() implies !is_whitespace(#[trigger] clear[j]) by {}
    assert forall|j: int| 0 <= j < echo.len() implies !is_whitespace(#[trigger] echo[j]) by {}
    lemma_leading_word(help, rest);
    lemma_leading_word(clear, rest);
    lemma_leading_word(echo, rest);
    lemma_skip_leading_whitespace(lead, help + rest);
    lemma_skip_leading_whitespace(lead, clear + rest);
    lemma_skip_leading_whitespace(lead, echo + rest);
    assert(lead + help + rest == lead + (help + rest));
    assert(lead + clear + rest == lead + (clear + rest));
    assert(lead + echo + rest == lead + (echo + rest));
}

/// Whitespace in front of a line that starts with a non-whitespace character
/// is exactly what trimming its start removes.
proof fn lemma_skip_leading_whitespace(lead: Seq<char>, s: Seq<char>)
    requires
        forall|j: int| 0 <= j < lead.len() ==> is_whitespace(#[trigger] lead[j]),
        s.len() > 0,
        !is_whitespace(s[0]),
    ensures
        trim_start(lead + s) == s,
        trim(lead + s) == trim(s),
    decreases lead.len(),
{
    if lead.len() > 0 {
        assert(is_whitespace(lead[0]));
        assert((lead + s)[0] == lead[0]);
        assert((lead + s).drop_first() =~= lead.drop_first() + s);
        lemma_skip_leading_whitespace(lead.drop_first(), s);
    } else {
        assert(lead + s =~= s);
    }
    assert(trim_start(s) == s);
}

} // verus!
