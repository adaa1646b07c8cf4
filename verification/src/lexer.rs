//! The motion tokenizer: a left-to-right scan that turns recorded key
//! presses into motion tokens. Enter submits; a printable press equal
//! to the resolved leader or commander trigger marks a client or
//! server command; `"` opens a string literal read to the matching
//! unescaped quote or the end of the recording; `-` and digits open a
//! signed decimal number, parsed with saturation; whitespace is
//! skipped; any other printable run is an identifier; any
//! non-printable press passes through as a chord. Malformed input
//! never fails: an unterminated literal keeps what it gathered, and a
//! bare `-` is read as an identifier.

use vstd::prelude::*;

use crate::alias::{CommandAliases, resolve};
use crate::input::{KeyCode, KeyInput};
use crate::text::push_char;

verus! {

/// A lexed motion token.
pub enum MotionToken {
    /// The leader press: a client command follows.
    ClientCommand,
    /// The commander press: a server command follows.
    ServerCommand,
    /// The Enter press.
    Submit,
    /// A double-quoted run of characters.
    StringLiteral(String),
    /// A signed base-10 number, saturated at the counter's ends.
    Number(i64),
    /// A run of printable, non-whitespace characters.
    Identifier(String),
    /// A non-printable press, carried through raw.
    Chord(KeyInput),
}

/// Mathematical model of a token.
#[verifier::ext_equal]
pub ghost enum TokenModel {
    ClientCommand,
    ServerCommand,
    Submit,
    StringLiteral(Seq<char>),
    Number(int),
    Identifier(Seq<char>),
    Chord(KeyInput),
}

impl View for MotionToken {
    type V = TokenModel;

    open spec fn view(&self) -> TokenModel {
        match self {
            MotionToken::ClientCommand => TokenModel::ClientCommand,
            MotionToken::ServerCommand => TokenModel::ServerCommand,
            MotionToken::Submit => TokenModel::Submit,
            MotionToken::StringLiteral(s) => TokenModel::StringLiteral(s@),
            MotionToken::Number(n) => TokenModel::Number(*n as int),
            MotionToken::Identifier(s) => TokenModel::Identifier(s@),
            MotionToken::Chord(k) => TokenModel::Chord(*k),
        }
    }
}

/// Whether a character has the Unicode White_Space property.
pub open spec fn is_space_char(c: char) -> bool {
    let u = c as u32;
    ||| u == 9
    ||| u == 10
    ||| u == 11
    ||| u == 12
    ||| u == 13
    ||| u == 32
    ||| u == 0x85
    ||| u == 0xA0
    ||| u == 0x1680
    ||| (0x2000 <= u && u <= 0x200A)
    ||| u == 0x2028
    ||| u == 0x2029
    ||| u == 0x202F
    ||| u == 0x205F
    ||| u == 0x3000
}

/// Whether a character is a decimal digit.
pub open spec fn is_digit_char(c: char) -> bool {
    48 <= c as u32 <= 57
}

/// The value of a decimal digit.
pub open spec fn digit_value(c: char) -> int {
    c as u32 - 48
}

/// A number, saturated into the token's signed counter.
pub open spec fn clamp_i64(v: int) -> int {
    if v > i64::MAX {
        i64::MAX as int
    } else if v < i64::MIN {
        i64::MIN as int
    } else {
        v
    }
}

/// Whether a press is the quote character.
pub open spec fn is_quote_press(k: KeyInput) -> bool {
    k.code == KeyCode::Char('"')
}

/// The string literal scan from a position: characters gathered until
/// a matching unescaped quote or the end, with `\"` read as a quote;
/// non-printable presses inside the literal contribute nothing.
pub open spec fn scan_string(s: Seq<KeyInput>, i: int, acc: Seq<char>) -> (Seq<char>, int)
    decreases s.len() - i,
    when 0 <= i <= s.len()
{
    if i >= s.len() {
        (acc, i)
    } else {
        match s[i].code {
            KeyCode::Char(c) => {
                if c == '"' {
                    (acc, i + 1)
                } else if c == '\\' && i + 1 < s.len() && is_quote_press(s[i + 1]) {
                    scan_string(s, i + 2, acc.push('"'))
                } else {
                    scan_string(s, i + 1, acc.push(c))
                }
            },
            _ => scan_string(s, i + 1, acc),
        }
    }
}

/// The digit scan from a position: the accumulated value and the
/// position after the last digit.
pub open spec fn scan_digits(s: Seq<KeyInput>, i: int, acc: int) -> (int, int)
    decreases s.len() - i,
    when 0 <= i <= s.len()
{
    if i >= s.len() {
        (acc, i)
    } else {
        match s[i].code {
            KeyCode::Char(c) => {
                if is_digit_char(c) {
                    scan_digits(s, i + 1, acc * 10 + digit_value(c))
                } else {
                    (acc, i)
                }
            },
            _ => (acc, i),
        }
    }
}

/// The identifier scan from a position: the maximal run of printable,
/// non-whitespace characters.
pub open spec fn scan_ident(s: Seq<KeyInput>, i: int, acc: Seq<char>) -> (Seq<char>, int)
    decreases s.len() - i,
    when 0 <= i <= s.len()
{
    if i >= s.len() {
        (acc, i)
    } else {
        match s[i].code {
            KeyCode::Char(c) => {
                if !is_space_char(c) {
                    scan_ident(s, i + 1, acc.push(c))
                } else {
                    (acc, i)
                }
            },
            _ => (acc, i),
        }
    }
}

/// The next token from a position, and the position after it: the
/// scan's rules in priority order — Enter, the leader press, the
/// commander press, a string literal, a number, skipped whitespace,
/// an identifier, and a chord for any non-printable press.
pub open spec fn next_token(
    s: Seq<KeyInput>,
    i: int,
    leader: Option<char>,
    commander: Option<char>,
) -> (Option<TokenModel>, int)
    decreases s.len() - i,
    when 0 <= i <= s.len()
{
    if i >= s.len() {
        (None, i)
    } else {
        let k = s[i];
        match k.code {
            KeyCode::Char(c) => {
                if leader == Some(c) {
                    (Some(TokenModel::ClientCommand), i + 1)
                } else if commander == Some(c) {
                    (Some(TokenModel::ServerCommand), i + 1)
                } else if c == '"' {
                    let scanned = scan_string(s, i + 1, Seq::empty());
                    (Some(TokenModel::StringLiteral(scanned.0)), scanned.1)
                } else if c == '-' {
                    if i + 1 < s.len() && (s[i + 1].code matches KeyCode::Char(d) && is_digit_char(
                        d,
                    )) {
                        let scanned = scan_digits(s, i + 1, 0);
                        (Some(TokenModel::Number(clamp_i64(-scanned.0))), scanned.1)
                    } else {
                        let scanned = scan_ident(s, i + 1, seq!['-']);
                        (Some(TokenModel::Identifier(scanned.0)), scanned.1)
                    }
                } else if is_digit_char(c) {
                    let scanned = scan_digits(s, i, 0);
                    (Some(TokenModel::Number(clamp_i64(scanned.0))), scanned.1)
                } else if is_space_char(c) {
                    next_token(s, i + 1, leader, commander)
                } else {
                    let scanned = scan_ident(s, i, Seq::empty());
                    (Some(TokenModel::Identifier(scanned.0)), scanned.1)
                }
            },
            KeyCode::Enter => (Some(TokenModel::Submit), i + 1),
            _ => (Some(TokenModel::Chord(k)), i + 1),
        }
    }
}

proof fn lemma_scan_string_bounds(s: Seq<KeyInput>, i: int, acc: Seq<char>)
    requires
        0 <= i <= s.len(),
    ensures
        i <= scan_string(s, i, acc).1 <= s.len(),
    decreases s.len() - i,
{
    if i < s.len() {
        match s[i].code {
            KeyCode::Char(c) => {
                if c == '"' {
                } else if c == '\\' && i + 1 < s.len() && is_quote_press(s[i + 1]) {
                    lemma_scan_string_bounds(s, i + 2, acc.push('"'));
                } else {
                    lemma_scan_string_bounds(s, i + 1, acc.push(c));
                }
            },
            _ => {
                lemma_scan_string_bounds(s, i + 1, acc);
            },
        }
    }
}

proof fn lemma_scan_digits_bounds(s: Seq<KeyInput>, i: int, acc: int)
    requires
        0 <= i <= s.len(),
    ensures
        i <= scan_digits(s, i, acc).1 <= s.len(),
    decreases s.len() - i,
{
    if i < s.len() {
        match s[i].code {
            KeyCode::Char(c) => {
                if is_digit_char(c) {
                    lemma_scan_digits_bounds(s, i + 1, acc * 10 + digit_value(c));
                }
            },
            _ => {},
        }
    }
}

proof fn lemma_scan_ident_bounds(s: Seq<KeyInput>, i: int, acc: Seq<char>)
    requires
        0 <= i <= s.len(),
    ensures
        i <= scan_ident(s, i, acc).1 <= s.len(),
    decreases s.len() - i,
{
    if i < s.len() {
        match s[i].code {
            KeyCode::Char(c) => {
                if !is_space_char(c) {
                    lemma_scan_ident_bounds(s, i + 1, acc.push(c));
                }
            },
            _ => {},
        }
    }
}

/// The scan always moves forward: a token consumes at least one
/// press, and the next position never leaves the recording.
pub proof fn lemma_next_token_advances(
    s: Seq<KeyInput>,
    i: int,
    leader: Option<char>,
    commander: Option<char>,
)
    requires
        0 <= i <= s.len(),
    ensures
        i <= next_token(s, i, leader, commander).1 <= s.len(),
        next_token(s, i, leader, commander).0 is Some ==> next_token(s, i, leader, commander).1
            > i,
    decreases s.len() - i,
{
    if i < s.len() {
        match s[i].code {
            KeyCode::Char(c) => {
                if leader == Some(c) {
                } else if commander == Some(c) {
                } else if c == '"' {
                    lemma_scan_string_bounds(s, i + 1, Seq::empty());
                } else if c == '-' {
                    if i + 1 < s.len() && (s[i + 1].code matches KeyCode::Char(d) && is_digit_char(
                        d,
                    )) {
                        lemma_scan_digits_bounds(s, i + 1, 0);
                    } else {
                        lemma_scan_ident_bounds(s, i + 1, seq!['-']);
                    }
                } else if is_digit_char(c) {
                    lemma_scan_digits_bounds(s, i + 1, digit_value(c));
                    assert(scan_digits(s, i, 0) == scan_digits(s, i + 1, digit_value(c)));
                } else if is_space_char(c) {
                    lemma_next_token_advances(s, i + 1, leader, commander);
                } else {
                    lemma_scan_ident_bounds(s, i + 1, Seq::empty().push(c));
                    assert(scan_ident(s, i, Seq::empty()) == scan_ident(
                        s,
                        i + 1,
                        Seq::empty().push(c),
                    ));
                }
            },
            _ => {},
        }
    }
}

/// The whole token stream from a position.
pub open spec fn tokens_of(
    s: Seq<KeyInput>,
    i: int,
    leader: Option<char>,
    commander: Option<char>,
) -> Seq<TokenModel>
    decreases s.len() - i,
    when 0 <= i <= s.len()
    via tokens_of_dec
{
    let nt = next_token(s, i, leader, commander);
    match nt.0 {
        Some(t) => seq![t] + tokens_of(s, nt.1, leader, commander),
        None => Seq::empty(),
    }
}

#[via_fn]
proof fn tokens_of_dec(s: Seq<KeyInput>, i: int, leader: Option<char>, commander: Option<char>) {
    lemma_next_token_advances(s, i, leader, commander);
}

/// The single press a resolved trigger string selects: its first
/// character, or none when the name resolves to nothing or to an
/// empty trigger.
pub open spec fn trigger_char(m: Map<Seq<char>, Seq<char>>, name: Seq<char>) -> Option<char> {
    match resolve(m, name) {
        Some(t) => if t.len() > 0 {
            Some(t[0])
        } else {
            None
        },
        None => None,
    }
}

/// Mathematical model of the tokenizer: its input, its position, and
/// the trigger presses it resolved when it was made.
#[verifier::ext_equal]
pub ghost struct TokenizerModel {
    pub input: Seq<KeyInput>,
    pub pos: int,
    pub leader: Option<char>,
    pub commander: Option<char>,
}

/// What one call of `next` does: the input and triggers stay, the
/// position moves to just after the token the scan found there, and
/// the token is the scan's.
pub open spec fn next_ok(pre: TokenizerModel, post: TokenizerModel, tok: Option<TokenModel>) -> bool {
    let nt = next_token(pre.input, pre.pos, pre.leader, pre.commander);
    &&& post.input == pre.input
    &&& post.leader == pre.leader
    &&& post.commander == pre.commander
    &&& post.pos == nt.1
    &&& tok == nt.0
    &&& post.pos <= post.input.len()
}

/// The left-to-right scan over a recording, one token per call.
pub struct MotionTokenizer<'a> {
    input: &'a Vec<KeyInput>,
    pos: usize,
    leader: Option<char>,
    commander: Option<char>,
}

impl<'a> View for MotionTokenizer<'a> {
    type V = TokenizerModel;

    closed spec fn view(&self) -> TokenizerModel {
        TokenizerModel {
            input: self.input@,
            pos: self.pos as int,
            leader: self.leader,
            commander: self.commander,
        }
    }
}

/// The first character of a string, if it has one.
fn first_char(s: &str) -> (r: Option<char>)
    ensures
        r == (if s@.len() > 0 {
            Some(s@[0])
        } else {
            None::<char>
        }),
{
    broadcast use vstd::string::axiom_spec_iter, vstd::string::next_postcondition;

    let mut it = s.chars();
    it.next()
}

impl<'a> MotionTokenizer<'a> {
    /// A scan over the recording, with the leader and commander
    /// triggers resolved from the alias table once, up front.
    pub fn new(input: &'a Vec<KeyInput>, aliases: &CommandAliases) -> (r: Self)
        ensures
            r@ == (TokenizerModel {
                input: input@,
                pos: 0,
                leader: trigger_char(aliases@, "leader"@),
                commander: trigger_char(aliases@, "commander"@),
            }),
    {
        let leader = match aliases.get("leader") {
            Some(t) => first_char(t),
            None => None,
        };
        let commander = match aliases.get("commander") {
            Some(t) => first_char(t),
            None => None,
        };
        MotionTokenizer { input, pos: 0, leader, commander }
    }

    /// The next token of the recording, or nothing at its end.
    #[verifier::loop_isolation(false)]
    pub fn next(&mut self) -> (r: Option<MotionToken>)
        requires
            old(self)@.pos <= old(self)@.input.len(),
        ensures
            next_ok(
                old(self)@,
                final(self)@,
                match r {
                    Some(t) => Some(t@),
                    None => None::<TokenModel>,
                },
            ),
    {
        let ghost pre = self@;
        let s = self.input;
        let n = s.len();
        loop
            invariant
                self.input == s,
                self.leader == pre.leader,
                self.commander == pre.commander,
                pre.pos <= self.pos as int <= n as int,
                next_token(s@, pre.pos, pre.leader, pre.commander) == next_token(
                    s@,
                    self.pos as int,
                    pre.leader,
                    pre.commander,
                ),
            decreases n - self.pos,
        {
            if self.pos >= n {
                return None;
            }
            let k = s[self.pos];
            match k.code {
                KeyCode::Enter => {
                    self.pos = self.pos + 1;
                    return Some(MotionToken::Submit);
                },
                KeyCode::Char(c) => {
                    let is_leader = match self.leader {
                        Some(lc) => lc == c,
                        None => false,
                    };
                    let is_commander = match self.commander {
                        Some(cc) => cc == c,
                        None => false,
                    };
                    if is_leader {
                        self.pos = self.pos + 1;
                        return Some(MotionToken::ClientCommand);
                    } else if is_commander {
                        self.pos = self.pos + 1;
                        return Some(MotionToken::ServerCommand);
                    } else if c == '"' {
                        self.pos = self.pos + 1;
                        return Some(MotionToken::StringLiteral(self.scan_string_run()));
                    } else if c == '-' {
                        let digit_follows = self.pos + 1 < n && (match s[self.pos + 1].code {
                            KeyCode::Char(d) => is_digit(d),
                            _ => false,
                        });
                        if digit_follows {
                            self.pos = self.pos + 1;
                            let v = self.scan_number_run(true);
                            return Some(MotionToken::Number(v));
                        } else {
                            let mut txt = String::new();
                            push_char(&mut txt, '-');
                            self.pos = self.pos + 1;
                            proof {
                                assert(txt@ =~= seq!['-']);
                            }
                            self.scan_ident_run(&mut txt);
                            return Some(MotionToken::Identifier(txt));
                        }
                    } else if is_digit(c) {
                        let v = self.scan_number_run(false);
                        return Some(MotionToken::Number(v));
                    } else if is_whitespace(c) {
                        self.pos = self.pos + 1;
                    } else {
                        let mut txt = String::new();
                        proof {
                            assert(txt@ =~= Seq::<char>::empty());
                        }
                        self.scan_ident_run(&mut txt);
                        return Some(MotionToken::Identifier(txt));
                    }
                },
                _ => {
                    self.pos = self.pos + 1;
                    return Some(MotionToken::Chord(k));
                },
            }
        }
    }

    /// Gathers a string literal's characters; the position starts
    /// just after the opening quote.
    #[verifier::loop_isolation(false)]
    fn scan_string_run(&mut self) -> (r: String)
        requires
            old(self)@.pos <= old(self)@.input.len(),
        ensures
            final(self)@.input == old(self)@.input,
            final(self)@.leader == old(self)@.leader,
            final(self)@.commander == old(self)@.commander,
            (r@, final(self)@.pos) == scan_string(old(self)@.input, old(self)@.pos, Seq::empty()),
            final(self)@.pos <= final(self)@.input.len(),
    {
        let ghost start = self@.pos;
        let s = self.input;
        let n = s.len();
        let mut txt = String::new();
        proof {
            assert(txt@ =~= Seq::<char>::empty());
        }
        loop
            invariant
                self.input == s,
                self.leader == old(self).leader,
                self.commander == old(self).commander,
                start <= self.pos as int <= n as int,
                scan_string(s@, start, Seq::empty()) == scan_string(s@, self.pos as int, txt@),
            decreases n - self.pos,
        {
            if self.pos >= n {
                return txt;
            }
            let k = s[self.pos];
            match k.code {
                KeyCode::Char(c) => {
                    if c == '"' {
                        self.pos = self.pos + 1;
                        return txt;
                    } else if c == '\\' && self.pos + 1 < n && (match s[self.pos + 1].code {
                        KeyCode::Char(q) => q == '"',
                        _ => false,
                    }) {
                        push_char(&mut txt, '"');
                        self.pos = self.pos + 2;
                    } else {
                        push_char(&mut txt, c);
                        self.pos = self.pos + 1;
                    }
                },
                _ => {
                    self.pos = self.pos + 1;
                },
            }
        }
    }

    /// Gathers a digit run into a signed number, saturating at the
    /// counter's ends; the position starts at the first digit.
    #[verifier::loop_isolation(false)]
    fn scan_number_run(&mut self, negative: bool) -> (r: i64)
        requires
            old(self)@.pos <= old(self)@.input.len(),
        ensures
            final(self)@.input == old(self)@.input,
            final(self)@.leader == old(self)@.leader,
            final(self)@.commander == old(self)@.commander,
            final(self)@.pos == scan_digits(old(self)@.input, old(self)@.pos, 0).1,
            r as int == clamp_i64(
                if negative {
                    -scan_digits(old(self)@.input, old(self)@.pos, 0).0
                } else {
                    scan_digits(old(self)@.input, old(self)@.pos, 0).0
                },
            ),
            final(self)@.pos <= final(self)@.input.len(),
    {
        let ghost start = self@.pos;
        let s = self.input;
        let n = s.len();
        let mut mag: u64 = 0;
        let ghost mut v: int = 0int;
        loop
            invariant
                self.input == s,
                self.leader == old(self).leader,
                self.commander == old(self).commander,
                start <= self.pos as int <= n as int,
                scan_digits(s@, start, 0) == scan_digits(s@, self.pos as int, v),
                v >= 0,
                mag as int == if v > u64::MAX as int {
                    u64::MAX as int
                } else {
                    v
                },
            decreases n - self.pos,
        {
            if self.pos >= n {
                break ;
            }
            let k = s[self.pos];
            let d: u64 = match k.code {
                KeyCode::Char(c) => {
                    if is_digit(c) {
                        (c as u32 - 48) as u64
                    } else {
                        break ;
                    }
                },
                _ => { break ; },
            };
            proof {
                let c = (match k.code {
                    KeyCode::Char(c0) => c0,
                    _ => ' ',
                });
                assert(scan_digits(s@, self.pos as int, v) == scan_digits(
                    s@,
                    self.pos as int + 1,
                    v * 10 + digit_value(c),
                ));
            }
            mag = match mag.checked_mul(10) {
                Some(x) => match x.checked_add(d) {
                    Some(y) => y,
                    None => u64::MAX,
                },
                None => u64::MAX,
            };
            proof {
                v = v * 10int + d as int;
            }
            self.pos = self.pos + 1;
        }
        // The run has ended; apply the sign and saturate.
        if negative {
            if mag >= 9223372036854775808u64 {
                i64::MIN
            } else {
                -(mag as i64)
            }
        } else {
            if mag > 9223372036854775807u64 {
                i64::MAX
            } else {
                mag as i64
            }
        }
    }

    /// Gathers an identifier's remaining characters onto what the
    /// caller started; the position starts at the next candidate.
    #[verifier::loop_isolation(false)]
    fn scan_ident_run(&mut self, txt: &mut String)
        requires
            old(self)@.pos <= old(self)@.input.len(),
        ensures
            final(self)@.input == old(self)@.input,
            final(self)@.leader == old(self)@.leader,
            final(self)@.commander == old(self)@.commander,
            (final(txt)@, final(self)@.pos) == scan_ident(
                old(self)@.input,
                old(self)@.pos,
                old(txt)@,
            ),
            final(self)@.pos <= final(self)@.input.len(),
    {
        let ghost start = self@.pos;
        let s = self.input;
        let n = s.len();
        loop
            invariant
                self.input == s,
                self.leader == old(self).leader,
                self.commander == old(self).commander,
                start <= self.pos as int <= n as int,
                scan_ident(s@, start, old(txt)@) == scan_ident(s@, self.pos as int, txt@),
            decreases n - self.pos,
        {
            if self.pos >= n {
                return ;
            }
            let k = s[self.pos];
            match k.code {
                KeyCode::Char(c) => {
                    if !is_whitespace(c) {
                        push_char(txt, c);
                        self.pos = self.pos + 1;
                    } else {
                        return ;
                    }
                },
                _ => {
                    return ;
                },
            }
        }
    }
}

/// Whether a character has the Unicode White_Space property.
pub fn is_whitespace(c: char) -> (r: bool)
    ensures
        r == is_space_char(c),
{
    let u = c as u32;
    u == 9 || u == 10 || u == 11 || u == 12 || u == 13 || u == 32 || u == 0x85 || u == 0xA0 || u
        == 0x1680 || (0x2000 <= u && u <= 0x200A) || u == 0x2028 || u == 0x2029 || u == 0x202F || u
        == 0x205F || u == 0x3000
}

/// Whether a character is a decimal digit.
pub fn is_digit(c: char) -> (r: bool)
    ensures
        r == is_digit_char(c),
{
    let u = c as u32;
    48 <= u && u <= 57
}

/// Lexes a whole recording against the alias table: the scan's
/// tokens, in order, to the end.
#[verifier::loop_isolation(false)]
pub fn tokenize(events: &Vec<KeyInput>, aliases: &CommandAliases) -> (r: Vec<MotionToken>)
    ensures
        r@.map_values(|t: MotionToken| t@) == tokens_of(
            events@,
            0,
            trigger_char(aliases@, "leader"@),
            trigger_char(aliases@, "commander"@),
        ),
{
    let ghost leader = trigger_char(aliases@, "leader"@);
    let ghost commander = trigger_char(aliases@, "commander"@);
    let mut scan = MotionTokenizer::new(events, aliases);
    let mut out: Vec<MotionToken> = Vec::new();
    loop
        invariant
            scan@.input == events@,
            scan@.leader == leader,
            scan@.commander == commander,
            0 <= scan@.pos <= events@.len(),
            tokens_of(events@, 0, leader, commander) == out@.map_values(|t: MotionToken| t@)
                + tokens_of(events@, scan@.pos, leader, commander),
        decreases events@.len() - scan@.pos + 1,
    {
        let ghost pos0 = scan@.pos;
        proof {
            lemma_next_token_advances(events@, pos0, leader, commander);
        }
        match scan.next() {
            Some(t) => {
                proof {
                    let nt = next_token(events@, pos0, leader, commander);
                    assert(tokens_of(events@, pos0, leader, commander) == seq![t@] + tokens_of(
                        events@,
                        nt.1,
                        leader,
                        commander,
                    ));
                }
                out.push(t);
                proof {
                    assert(out@.map_values(|t0: MotionToken| t0@) =~= out@.drop_last().map_values(
                        |t0: MotionToken| t0@,
                    ).push(t@));
                    assert(out@.map_values(|t0: MotionToken| t0@) + tokens_of(
                        events@,
                        scan@.pos,
                        leader,
                        commander,
                    ) =~= tokens_of(events@, 0, leader, commander));
                }
            },
            None => {
                proof {
                    assert(tokens_of(events@, pos0, leader, commander) =~= Seq::<
                        TokenModel,
                    >::empty());
                    assert(out@.map_values(|t: MotionToken| t@) =~= tokens_of(
                        events@,
                        0,
                        leader,
                        commander,
                    ));
                }
                return out;
            },
        }
    }
}

} // verus!
