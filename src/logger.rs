//! The formatter: a record counter and the settings it renders with.
use vstd::prelude::*;

use log::Level;

use crate::config::{filter_rank, level_rank, LoggerConfig};
use crate::foreign::{admits, local_time_text, paint, painted};
use crate::render::{
    continue_lines, continued, decimal, file_text, line_layout, line_text, location, location_indent,
    number_text, pad_number, prefix_layout, render_line, render_prefix, NUMBER_WIDTH,
};

verus! {

/// The three-letter token of a severity.
pub open spec fn token_text(level: Level) -> Seq<char> {
    match level {
        Level::Error => seq!['E', 'R', 'R'],
        Level::Warn => seq!['W', 'R', 'N'],
        Level::Info => seq!['I', 'N', 'F'],
        Level::Debug => seq!['D', 'B', 'G'],
        Level::Trace => seq!['T', 'R', 'C'],
    }
}

/// `out` begins with the number `k`, painted, and a space.
pub open spec fn shows_number(out: Seq<char>, k: nat) -> bool {
    exists|n: Seq<char>, rest: Seq<char>|
        painted(n, number_text(k)) && out == #[trigger] (n + seq![' '] + rest)
}

/// `p` is the prefix of record number `k` at severity `level`, at whatever time it was made.
pub open spec fn shows_prefix(p: Seq<char>, k: nat, level: Level) -> bool {
    exists|n: Seq<char>, t: Seq<char>|
        painted(n, number_text(k)) && p == #[trigger] prefix_layout(n, t, token_text(level))
}

/// `out` is the text of record number `k`: its prefix, its message with newlines replaced
/// by `sep`, and on the next line its file and line suffix, each painted.
pub open spec fn rendered(
    out: Seq<char>,
    k: nat,
    level: Level,
    message: Seq<char>,
    sep: Seq<char>,
    file: Option<&str>,
    line: Option<u32>,
) -> bool {
    exists|p: Seq<char>, f: Seq<char>, l: Seq<char>|
        shows_prefix(p, k, level) && (!file_text(file).contains('\x1b') ==> painted(
            f,
            file_text(file),
        )) && painted(l, line_text(file, line)) && out == #[trigger] line_layout(
            p,
            continued(message, sep),
            f,
            l,
        )
}

/// Every character of a number written in base ten is a digit.
pub proof fn lemma_decimal_has_no_escape(n: nat)
    ensures
        !decimal(n).contains('\x1b'),
        !(seq![':'] + decimal(n)).contains('\x1b'),
        !number_text(n).contains('\x1b'),
    decreases n,
{
    if n >= 10 {
        lemma_decimal_has_no_escape(n / 10);
        assert(!decimal(n).contains('\x1b')) by {
            if exists|i: int| 0 <= i < decimal(n).len() && decimal(n)[i] == '\x1b' {
                let i = choose|i: int| 0 <= i < decimal(n).len() && decimal(n)[i] == '\x1b';
                if i < decimal(n / 10).len() {
                    assert(decimal(n / 10)[i] == '\x1b');
                }
            }
        }
    }
    let s = seq![':'] + decimal(n);
    if exists|i: int| 0 <= i < s.len() && s[i] == '\x1b' {
        let i = choose|i: int| 0 <= i < s.len() && s[i] == '\x1b';
        assert(decimal(n)[i - 1] == '\x1b');
    }
    let t = number_text(n);
    if exists|i: int| 0 <= i < t.len() && t[i] == '\x1b' {
        let i = choose|i: int| 0 <= i < t.len() && t[i] == '\x1b';
        let pad = (NUMBER_WIDTH as nat - decimal(n).len()) as int;
        if decimal(n).len() < NUMBER_WIDTH as nat && i >= pad {
            assert(decimal(n)[i - pad] == '\x1b');
        }
    }
}

/// Each state of a run whose first state has counted nothing and whose every next state
/// has counted one record more holds its own position as its count.
proof fn lemma_count_is_position(states: Seq<CustomStatefulLogger>, i: int)
    requires
        0 <= i < states.len(),
        states[0].count() == 0,
        forall|j: int| 0 < j < states.len() ==> (#[trigger] states[j]).count() == states[j - 1].count() + 1,
    ensures
        states[i].count() == i,
    decreases i,
{
    if i > 0 {
        lemma_count_is_position(states, i - 1);
        assert(states[i].count() == states[i - 1].count() + 1);
    }
}

/// Records rendered one after another by a fresh formatter carry the numbers 1, 2, ..., N,
/// in that order: `states` are the formatter before and after each `format`, `outs` the
/// texts those calls returned.
pub proof fn lemma_sequential_numbering(states: Seq<CustomStatefulLogger>, outs: Seq<Seq<char>>)
    requires
        states.len() == outs.len() + 1,
        states[0].count() == 0,
        forall|j: int| 0 < j < states.len() ==> (#[trigger] states[j]).count() == states[j - 1].count() + 1,
        forall|j: int| 0 <= j < outs.len() ==> shows_number(#[trigger] outs[j], states[j + 1].count()),
    ensures
        forall|j: int| 0 <= j < states.len() ==> (#[trigger] states[j]).count() == j,
        forall|j: int| 0 <= j < outs.len() ==> shows_number(#[trigger] outs[j], (j + 1) as nat),
{
    assert forall|j: int| 0 <= j < states.len() implies (#[trigger] states[j]).count() == j by {
        lemma_count_is_position(states, j);
    }
    assert forall|j: int| 0 <= j < outs.len() implies shows_number(#[trigger] outs[j], (j + 1) as nat) by {
        lemma_count_is_position(states, j + 1);
    }
}

/// Calls that reach the formatter one at a time, in whatever order, are handed the numbers
/// 1 to N, each exactly once: `states` are the formatter before and after each call.
pub proof fn lemma_numbers_distinct(states: Seq<CustomStatefulLogger>)
    requires
        states.len() >= 1,
        states[0].count() == 0,
        forall|j: int| 0 < j < states.len() ==> (#[trigger] states[j]).count() == states[j - 1].count() + 1,
    ensures
        forall|i: int, j: int|
            0 < i < j < states.len() ==> (#[trigger] states[i]).count() != (#[trigger] states[j]).count(),
        Set::new(|k: nat| exists|j: int| 0 < j < states.len() && (#[trigger] states[j]).count() == k)
            == Set::new(|k: nat| 1 <= k < states.len()),
{
    assert forall|j: int| 0 <= j < states.len() implies (#[trigger] states[j]).count() == j by {
        lemma_count_is_position(states, j);
    }
    let issued = Set::new(|k: nat| exists|j: int| 0 < j < states.len() && (#[trigger] states[j]).count() == k);
    let expected = Set::new(|k: nat| 1 <= k < states.len());
    assert forall|k: nat| expected.contains(k) implies issued.contains(k) by {
        assert(states[k as int].count() == k);
    }
    assert(issued =~= expected);
}

/// Renders records and numbers them from one, in the order it renders them.
pub struct CustomStatefulLogger {
    line: u64,
    config: LoggerConfig,
}

impl CustomStatefulLogger {
    /// How many records have been rendered.
    pub closed spec fn count(&self) -> nat {
        self.line as nat
    }

    /// The settings that this formatter renders with.
    pub closed spec fn settings(&self) -> LoggerConfig {
        self.config
    }

    /// A formatter that has rendered nothing yet.
    pub fn new(config: LoggerConfig) -> (r: Self)
        ensures
            r.count() == 0,
            r.settings() == config,
    {
        CustomStatefulLogger { line: 0, config }
    }

    /// How many records have been rendered.
    pub fn sequence(&self) -> (r: u64)
        ensures
            r as nat == self.count(),
    {
        self.line
    }

    /// The settings that this formatter renders with.
    pub fn config(&self) -> (r: &LoggerConfig)
        ensures
            *r == self.settings(),
    {
        &self.config
    }

    /// The three-letter token of `level`.
    pub fn level_token(&self, level: &Level) -> (r: &'static str)
        ensures
            r@ == token_text(*level),
    {
        proof {
            reveal_strlit("ERR");
            reveal_strlit("WRN");
            reveal_strlit("INF");
            reveal_strlit("DBG");
            reveal_strlit("TRC");
        }
        let r = match *level {
            Level::Error => "ERR",
            Level::Warn => "WRN",
            Level::Info => "INF",
            Level::Debug => "DBG",
            Level::Trace => "TRC",
        };
        assert(r@ =~= token_text(*level));
        r
    }

    /// The number of the latest record, the time now and the token of `level`, each
    /// number and time painted in its colour. A time pattern that the clock rejects is
    /// shown as it stands.
    pub fn prefix_token(&self, level: &Level) -> (r: String)
        ensures
            shows_prefix(r@, self.count(), *level),
            ({
                let pattern = self.settings().timestamp_format@;
                !pattern.contains('%') && !pattern.contains('\x1b') ==> exists|
                    n: Seq<char>,
                    t: Seq<char>,
                |
                    painted(n, number_text(self.count())) && painted(t, pattern) && r@
                        == #[trigger] prefix_layout(n, t, token_text(*level))
            }),
    {
        let number = pad_number(self.line);
        proof {
            lemma_decimal_has_no_escape(self.line as nat);
        }
        let number = paint(number.as_str(), self.config.num_color);
        let now = match local_time_text(self.config.timestamp_format) {
            Some(t) => t,
            None => String::from_str(self.config.timestamp_format),
        };
        let now = paint(now.as_str(), self.config.timestamp_color);
        let r = render_prefix(number.as_str(), now.as_str(), self.level_token(level));
        assert(prefix_layout(number@, now@, token_text(*level)) == r@);
        r
    }

    /// Counts one more record and renders it as two lines: number, time, token and
    /// message (its newlines replaced by `sep`), then the file and line suffix.
    pub fn format(
        &mut self,
        level: &Level,
        message: &str,
        file: Option<&str>,
        line: Option<u32>,
        sep: &str,
    ) -> (r: String)
        requires
            old(self).count() < u64::MAX,
        ensures
            final(self).count() == old(self).count() + 1,
            final(self).settings() == old(self).settings(),
            rendered(r@, final(self).count(), *level, message@, sep@, file, line),
            shows_number(r@, final(self).count()),
    {
        self.line = self.line + 1;
        let (file_part, line_part) = location(file, line);
        let sep_body = continue_lines(message, sep);
        let prefix = self.prefix_token(level);
        proof {
            lemma_decimal_has_no_escape(self.line as nat);
            if let (Some(_), Some(n)) = (file, line) {
                lemma_decimal_has_no_escape(n as nat);
            }
        }
        let file_part = paint(file_part.as_str(), self.config.file_color);
        let line_part = paint(line_part.as_str(), self.config.line_color);
        let r = render_line(
            prefix.as_str(),
            sep_body.as_str(),
            file_part.as_str(),
            line_part.as_str(),
        );
        assert(line_layout(prefix@, continued(message@, sep@), file_part@, line_part@) == r@);
        proof {
            let (n, t) = choose|n: Seq<char>, t: Seq<char>|
                painted(n, number_text(self.count())) && prefix@ == #[trigger] prefix_layout(
                    n,
                    t,
                    token_text(*level),
                );
            let rest = t + seq![' '] + token_text(*level) + seq![' '] + continued(message@, sep@)
                + seq!['\n'] + location_indent() + file_part@ + line_part@
                + seq!['\n'];
            assert(r@ =~= n + seq![' '] + rest);
        }
        r
    }

    /// Renders a record as `format` does when `level` passes the threshold of the
    /// settings; otherwise renders nothing and counts nothing.
    pub fn emit(
        &mut self,
        level: &Level,
        message: &str,
        file: Option<&str>,
        line: Option<u32>,
        sep: &str,
    ) -> (r: Option<String>)
        requires
            old(self).count() < u64::MAX,
        ensures
            level_rank(*level) <= filter_rank(old(self).settings().level) ==> {
                &&& r is Some
                &&& final(self).count() == old(self).count() + 1
                &&& final(self).settings() == old(self).settings()
                &&& rendered(r->0@, final(self).count(), *level, message@, sep@, file, line)
                &&& shows_number(r->0@, final(self).count())
            },
            level_rank(*level) > filter_rank(old(self).settings().level) ==> {
                &&& r is None
                &&& *final(self) == *old(self)
            },
    {
        if admits(self.config.level, *level) {
            Some(self.format(level, message, file, line, sep))
        } else {
            None
        }
    }
}

} // verus!
