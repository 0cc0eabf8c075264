//! URL templates: `$Name$` and `$Name%0Nd$` placeholders and their expansion.

use crate::decimal::{all_digits, decimal_value, digit_of, is_digit, parse_digits};
use crate::text::{
    absent, append_chars, chars_of, lemma_replace_absent, matches_at, occurs_at, replace_all,
    replace_chars, same_text, slice_chars, string_of,
};
use vstd::prelude::*;

verus! {

/// The variables that a template can name.
#[derive(Clone, Copy, Debug, PartialEq, Eq, Structural)]
pub enum TemplateVar {
    RepresentationID,
    Number,
    Time,
    Bandwidth,
}

impl TemplateVar {
    /// The name of the variable, as templates write it.
    pub open spec fn spec_name(self) -> Seq<char> {
        match self {
            TemplateVar::RepresentationID => "RepresentationID"@,
            TemplateVar::Number => "Number"@,
            TemplateVar::Time => "Time"@,
            TemplateVar::Bandwidth => "Bandwidth"@,
        }
    }

    /// The plain placeholder of the variable: its name between two dollar signs.
    pub open spec fn plain_token(self) -> Seq<char> {
        match self {
            TemplateVar::RepresentationID => "$RepresentationID$"@,
            TemplateVar::Number => "$Number$"@,
            TemplateVar::Time => "$Time$"@,
            TemplateVar::Bandwidth => "$Bandwidth$"@,
        }
    }

    /// How a padded placeholder of the variable begins, up to the width.
    pub open spec fn padded_prefix(self) -> Seq<char> {
        match self {
            TemplateVar::RepresentationID => "$RepresentationID%0"@,
            TemplateVar::Number => "$Number%0"@,
            TemplateVar::Time => "$Time%0"@,
            TemplateVar::Bandwidth => "$Bandwidth%0"@,
        }
    }

    /// The name of the variable, as templates write it.
    pub fn name(self) -> (name: &'static str)
        ensures
            name@ == self.spec_name(),
    {
        match self {
            TemplateVar::RepresentationID => "RepresentationID",
            TemplateVar::Number => "Number",
            TemplateVar::Time => "Time",
            TemplateVar::Bandwidth => "Bandwidth",
        }
    }

    /// The variable that `name` names, if it names one.
    pub fn from_name(name: &str) -> (var: Option<TemplateVar>)
        ensures
            match var {
                Some(v) => v.spec_name() == name@,
                None => forall|v: TemplateVar| v.spec_name() != name@,
            },
    {
        if same_text(name, "RepresentationID") {
            Some(TemplateVar::RepresentationID)
        } else if same_text(name, "Number") {
            Some(TemplateVar::Number)
        } else if same_text(name, "Time") {
            Some(TemplateVar::Time)
        } else if same_text(name, "Bandwidth") {
            Some(TemplateVar::Bandwidth)
        } else {
            None
        }
    }

    fn plain_token_chars(self) -> (token: Vec<char>)
        ensures
            token@ == self.plain_token(),
            token@.len() > 0,
    {
        proof {
            reveal_strlit("$RepresentationID$");
            reveal_strlit("$Number$");
            reveal_strlit("$Time$");
            reveal_strlit("$Bandwidth$");
        }
        match self {
            TemplateVar::RepresentationID => chars_of("$RepresentationID$"),
            TemplateVar::Number => chars_of("$Number$"),
            TemplateVar::Time => chars_of("$Time$"),
            TemplateVar::Bandwidth => chars_of("$Bandwidth$"),
        }
    }

    fn padded_prefix_chars(self) -> (prefix: Vec<char>)
        ensures
            prefix@ == self.padded_prefix(),
    {
        match self {
            TemplateVar::RepresentationID => chars_of("$RepresentationID%0"),
            TemplateVar::Number => chars_of("$Number%0"),
            TemplateVar::Time => chars_of("$Time%0"),
            TemplateVar::Bandwidth => chars_of("$Bandwidth%0"),
        }
    }
}

/// No two variables share a name.
pub proof fn lemma_names_differ()
    ensures
        forall|a: TemplateVar, b: TemplateVar|
            #[trigger] a.spec_name() == #[trigger] b.spec_name() ==> a == b,
{
    reveal_strlit("RepresentationID");
    reveal_strlit("Number");
    reveal_strlit("Time");
    reveal_strlit("Bandwidth");
    assert forall|a: TemplateVar, b: TemplateVar|
        #[trigger] a.spec_name() == #[trigger] b.spec_name() implies a == b by {
        assert(a.spec_name().len() == b.spec_name().len());
    }
}

/// The placeholders of a variable are written with its name: the plain one
/// is the name between two dollar signs, and a padded one begins with a
/// dollar sign, the name and `%0`.
pub proof fn lemma_tokens_hold_name(var: TemplateVar)
    ensures
        var.plain_token() == seq!['$'] + var.spec_name() + seq!['$'],
        var.padded_prefix() == seq!['$'] + var.spec_name() + seq!['%', '0'],
{
    reveal_strlit("RepresentationID");
    reveal_strlit("Number");
    reveal_strlit("Time");
    reveal_strlit("Bandwidth");
    reveal_strlit("$RepresentationID$");
    reveal_strlit("$Number$");
    reveal_strlit("$Time$");
    reveal_strlit("$Bandwidth$");
    reveal_strlit("$RepresentationID%0");
    reveal_strlit("$Number%0");
    reveal_strlit("$Time%0");
    reveal_strlit("$Bandwidth%0");
    assert(var.plain_token() =~= seq!['$'] + var.spec_name() + seq!['$']);
    assert(var.padded_prefix() =~= seq!['$'] + var.spec_name() + seq!['%', '0']);
}

/// The values bound to the variables of a template. Its view is the map from
/// each bound variable to its value.
#[derive(Debug)]
pub struct TemplateVars {
    representation_id: Option<String>,
    number: Option<String>,
    time: Option<String>,
    bandwidth: Option<String>,
}

impl TemplateVars {
    spec fn slot(&self, var: TemplateVar) -> Option<String> {
        match var {
            TemplateVar::RepresentationID => self.representation_id,
            TemplateVar::Number => self.number,
            TemplateVar::Time => self.time,
            TemplateVar::Bandwidth => self.bandwidth,
        }
    }

    /// The map from each bound variable to its value.
    pub closed spec fn view(&self) -> Map<TemplateVar, Seq<char>> {
        Map::new(|var: TemplateVar| self.slot(var) is Some, |var: TemplateVar| self.slot(var)->0@)
    }

    /// No variable bound.
    pub fn new() -> (vars: TemplateVars)
        ensures
            vars@ == Map::<TemplateVar, Seq<char>>::empty(),
    {
        let vars = TemplateVars { representation_id: None, number: None, time: None, bandwidth: None };
        assert(vars@ =~= Map::<TemplateVar, Seq<char>>::empty());
        vars
    }

    /// Binds `var` to `value`; an earlier value of `var` is replaced.
    pub fn set(&mut self, var: TemplateVar, value: String)
        ensures
            final(self)@ == old(self)@.insert(var, value@),
    {
        match var {
            TemplateVar::RepresentationID => {
                self.representation_id = Some(value);
            },
            TemplateVar::Number => {
                self.number = Some(value);
            },
            TemplateVar::Time => {
                self.time = Some(value);
            },
            TemplateVar::Bandwidth => {
                self.bandwidth = Some(value);
            },
        }
        assert(self@ =~= old(self)@.insert(var, value@));
    }

    /// Binds the variable called `name` to `value` and says whether there is
    /// such a variable. Under any other name nothing is bound.
    pub fn insert(&mut self, name: &str, value: String) -> (known: bool)
        ensures
            known == exists|var: TemplateVar| var.spec_name() == name@,
            forall|var: TemplateVar|
                var.spec_name() == name@ ==> final(self)@ == old(self)@.insert(var, value@),
            !known ==> final(self)@ == old(self)@,
    {
        proof {
            lemma_names_differ();
        }
        match TemplateVar::from_name(name) {
            Some(var) => {
                self.set(var, value);
                true
            },
            None => false,
        }
    }

    /// The value bound to `var`, if one is.
    pub fn get(&self, var: TemplateVar) -> (value: Option<&String>)
        ensures
            value is Some <==> self@.contains_key(var),
            value is Some ==> value->0@ == self@[var],
    {
        match var {
            TemplateVar::RepresentationID => self.representation_id.as_ref(),
            TemplateVar::Number => self.number.as_ref(),
            TemplateVar::Time => self.time.as_ref(),
            TemplateVar::Bandwidth => self.bandwidth.as_ref(),
        }
    }
}

/// The first position at or after `from` that holds no digit.
pub open spec fn digit_run_end(s: Seq<char>, from: int) -> int
    decreases s.len() - from,
{
    if from < 0 || from >= s.len() || !is_digit(s[from]) {
        from
    } else {
        digit_run_end(s, from + 1)
    }
}

/// Where the padded placeholder that begins at `at` ends, if one begins
/// there: `prefix`, one or more digits, then `d$`.
pub open spec fn padded_end(s: Seq<char>, prefix: Seq<char>, at: int) -> Option<int> {
    let digits_from = at + prefix.len();
    let digits_to = digit_run_end(s, digits_from);
    if occurs_at(s, at, prefix) && digits_from < digits_to && digits_to + 2 <= s.len()
        && s[digits_to] == 'd' && s[digits_to + 1] == '$' {
        Some(digits_to + 2)
    } else {
        None
    }
}

/// The first padded placeholder of `s` at or after `from`: where it begins
/// and where it ends.
pub open spec fn first_padded(s: Seq<char>, prefix: Seq<char>, from: int) -> Option<(int, int)>
    decreases s.len() - from,
{
    if from < 0 || from >= s.len() {
        None
    } else {
        match padded_end(s, prefix, from) {
            Some(end) => Some((from, end)),
            None => first_padded(s, prefix, from + 1),
        }
    }
}

/// `value` with zeros put before it until it is `width` characters long. A
/// value that is already that long, or longer, is left as it is.
pub open spec fn zero_padded(value: Seq<char>, width: nat) -> Seq<char> {
    if value.len() >= width {
        value
    } else {
        Seq::new((width - value.len()) as nat, |i: int| '0') + value
    }
}

/// `s` with its first padded placeholder replaced by `value`, padded with
/// zeros to the width that the placeholder gives. A width that the machine
/// cannot count leaves `s` as it is.
pub open spec fn expand_padded(s: Seq<char>, prefix: Seq<char>, value: Seq<char>) -> Seq<char> {
    match first_padded(s, prefix, 0) {
        None => s,
        Some((at, end)) => {
            let width = decimal_value(s.subrange(at + prefix.len(), end - 2));
            if width <= usize::MAX {
                s.subrange(0, at) + zero_padded(value, width as nat) + s.subrange(
                    end,
                    s.len() as int,
                )
            } else {
                s
            }
        },
    }
}

/// `s` with the placeholders of `var` expanded: every plain one, then the
/// first padded one. Nothing changes where `var` is not bound.
pub open spec fn expand_var(s: Seq<char>, var: TemplateVar, vars: Map<TemplateVar, Seq<char>>) -> Seq<
    char,
> {
    if vars.contains_key(var) {
        expand_padded(replace_all(s, var.plain_token(), vars[var]), var.padded_prefix(), vars[var])
    } else {
        s
    }
}

/// The template with the placeholders of its four variables expanded, one
/// variable after the other.
pub open spec fn resolved_template(template: Seq<char>, vars: Map<TemplateVar, Seq<char>>) -> Seq<
    char,
> {
    expand_var(
        expand_var(
            expand_var(
                expand_var(template, TemplateVar::RepresentationID, vars),
                TemplateVar::Number,
                vars,
            ),
            TemplateVar::Time,
            vars,
        ),
        TemplateVar::Bandwidth,
        vars,
    )
}

/// `s` holds no placeholder, plain or padded, of any bound variable.
pub open spec fn settled(s: Seq<char>, vars: Map<TemplateVar, Seq<char>>) -> bool {
    forall|var: TemplateVar|
        vars.contains_key(var) ==> absent(s, #[trigger] var.plain_token()) && first_padded(
            s,
            var.padded_prefix(),
            0,
        ) is None
}

/// A text without placeholders of bound variables is its own expansion.
pub proof fn lemma_settled_is_fixed(s: Seq<char>, vars: Map<TemplateVar, Seq<char>>)
    requires
        settled(s, vars),
    ensures
        resolved_template(s, vars) == s,
{
    assert forall|var: TemplateVar| expand_var(s, var, vars) == s by {
        if vars.contains_key(var) {
            assert(absent(s, var.plain_token()));
            lemma_replace_absent(s, var.plain_token(), vars[var], 0);
            assert(s.subrange(0, s.len() as int) =~= s);
        }
    }
}

/// A text without a dollar sign holds no placeholder.
pub proof fn lemma_no_dollar_is_settled(s: Seq<char>, vars: Map<TemplateVar, Seq<char>>)
    requires
        !s.contains('$'),
    ensures
        settled(s, vars),
{
    reveal_strlit("$RepresentationID$");
    reveal_strlit("$Number$");
    reveal_strlit("$Time$");
    reveal_strlit("$Bandwidth$");
    reveal_strlit("$RepresentationID%0");
    reveal_strlit("$Number%0");
    reveal_strlit("$Time%0");
    reveal_strlit("$Bandwidth%0");
    assert forall|var: TemplateVar| #![auto] absent(s, var.plain_token()) by {
        assert forall|at: int| !occurs_at(s, at, var.plain_token()) by {
            if occurs_at(s, at, var.plain_token()) {
                assert(s.subrange(at, at + var.plain_token().len())[0] == '$');
                assert(s[at] == '$');
            }
        }
    }
    assert forall|var: TemplateVar| #![auto] first_padded(s, var.padded_prefix(), 0) is None by {
        lemma_no_prefix_no_padded(s, var.padded_prefix(), 0);
    }
}

proof fn lemma_no_prefix_no_padded(s: Seq<char>, prefix: Seq<char>, from: int)
    requires
        !s.contains('$'),
        prefix.len() > 0,
        prefix[0] == '$',
    ensures
        first_padded(s, prefix, from) is None,
    decreases s.len() - from,
{
    if 0 <= from < s.len() {
        if occurs_at(s, from, prefix) {
            assert(s.subrange(from, from + prefix.len())[0] == '$');
            assert(s[from] == '$');
        }
        lemma_no_prefix_no_padded(s, prefix, from + 1);
    }
}

/// Expanding twice gives what expanding once gives, whenever the first
/// expansion has left no placeholder of a bound variable behind.
pub proof fn lemma_resolve_idempotent(template: Seq<char>, vars: Map<TemplateVar, Seq<char>>)
    requires
        settled(resolved_template(template, vars), vars),
    ensures
        resolved_template(resolved_template(template, vars), vars) == resolved_template(
            template,
            vars,
        ),
{
    lemma_settled_is_fixed(resolved_template(template, vars), vars);
}

/// Puts zeros before `value` until it is `width` characters long. A value
/// that is already that long, or longer, comes back unchanged: nothing is cut.
pub fn zero_pad(value: &Vec<char>, width: usize) -> (padded: Vec<char>)
    ensures
        padded@ == zero_padded(value@, width as nat),
        width <= value@.len() ==> padded@ == value@,
{
    let mut padded: Vec<char> = Vec::new();
    if value.len() < width {
        let zeros: usize = width - value.len();
        let mut i: usize = 0;
        while i < zeros
            invariant
                i <= zeros,
                padded@ == Seq::new(i as nat, |k: int| '0'),
            decreases zeros - i,
        {
            padded.push('0');
            assert(padded@ =~= Seq::new((i + 1) as nat, |k: int| '0'));
            i += 1;
        }
    } else {
        assert(padded@ + value@ =~= value@);
    }
    append_chars(&mut padded, value);
    padded
}

fn scan_digits(s: &Vec<char>, from: usize) -> (to: usize)
    requires
        from <= s.len(),
    ensures
        to as int == digit_run_end(s@, from as int),
        from <= to <= s.len(),
        all_digits(s@.subrange(from as int, to as int)),
{
    let mut i: usize = from;
    loop
        invariant
            from <= i <= s.len(),
            digit_run_end(s@, from as int) == digit_run_end(s@, i as int),
            all_digits(s@.subrange(from as int, i as int)),
        ensures
            from <= i <= s.len(),
            i as int == digit_run_end(s@, from as int),
            all_digits(s@.subrange(from as int, i as int)),
        decreases s.len() - i,
    {
        if i >= s.len() {
            break ;
        }
        if digit_of(s[i]).is_none() {
            break ;
        }
        assert forall|k: int| 0 <= k < i + 1 - from implies is_digit(
            #[trigger] s@.subrange(from as int, i + 1)[k],
        ) by {
            if k < i - from {
                assert(s@.subrange(from as int, i as int)[k] == s@[from + k]);
            }
        }
        i += 1;
    }
    i
}

fn padded_end_at(s: &Vec<char>, prefix: &Vec<char>, at: usize) -> (end: Option<usize>)
    requires
        at < s.len(),
    ensures
        match end {
            Some(e) => padded_end(s@, prefix@, at as int) == Some(e as int),
            None => padded_end(s@, prefix@, at as int) is None,
        },
        end is Some ==> at + prefix@.len() < end->0 - 2 && end->0 <= s.len() && all_digits(
            s@.subrange(at + prefix@.len(), end->0 - 2),
        ),
{
    if !matches_at(s, at, prefix) {
        return None;
    }
    let digits_from: usize = at + prefix.len();
    let digits_to = scan_digits(s, digits_from);
    if digits_from < digits_to && digits_to < s.len() && s.len() - digits_to >= 2 && s[digits_to]
        == 'd' && s[digits_to + 1] == '$' {
        Some(digits_to + 2)
    } else {
        None
    }
}

fn find_padded(s: &Vec<char>, prefix: &Vec<char>) -> (found: Option<(usize, usize)>)
    ensures
        match found {
            Some((at, end)) => first_padded(s@, prefix@, 0) == Some((at as int, end as int)),
            None => first_padded(s@, prefix@, 0) is None,
        },
        match found {
            Some((at, end)) => at + prefix@.len() < end - 2 && end <= s.len() && all_digits(
                s@.subrange(at + prefix@.len(), end - 2),
            ),
            None => true,
        },
{
    let mut i: usize = 0;
    while i < s.len()
        invariant
            i <= s.len(),
            first_padded(s@, prefix@, 0) == first_padded(s@, prefix@, i as int),
        decreases s.len() - i,
    {
        match padded_end_at(s, prefix, i) {
            Some(end) => {
                return Some((i, end));
            },
            None => {},
        }
        i += 1;
    }
    None
}

fn expand_padded_chars(s: Vec<char>, prefix: &Vec<char>, value: &Vec<char>) -> (out: Vec<char>)
    ensures
        out@ == expand_padded(s@, prefix@, value@),
{
    match find_padded(&s, prefix) {
        None => s,
        Some((at, end)) => {
            let digits = slice_chars(&s, at + prefix.len(), end - 2);
            assert(digits@.subrange(0, digits@.len() as int) =~= digits@);
            assert(digits@ == s@.subrange(at + prefix@.len(), end - 2));
            match parse_digits(&digits, 0) {
                None => {
                    assert(decimal_value(digits@) > u64::MAX);
                    s
                },
                Some(width) => {
                    assert(width as int == decimal_value(digits@));
                    if width > usize::MAX as u64 {
                        s
                    } else {
                        let mut out = slice_chars(&s, 0, at);
                        let padded = zero_pad(value, width as usize);
                        append_chars(&mut out, &padded);
                        let tail = slice_chars(&s, end, s.len());
                        append_chars(&mut out, &tail);
                        out
                    }
                },
            }
        },
    }
}

/// Expands the placeholders of `template` with the values of `params`. For
/// each of the four variables in turn, where it is bound: every `$Name$` is
/// replaced by the value, then the first `$Name%0Nd$` by the value padded
/// with zeros to `N` characters. Everything else is left as it is.
pub fn resolve_url_template(template: &str, params: &TemplateVars) -> (resolved: String)
    ensures
        resolved@ == resolved_template(template@, params@),
{
    let text = chars_of(template);
    let text = expand_var_chars(text, TemplateVar::RepresentationID, params);
    let text = expand_var_chars(text, TemplateVar::Number, params);
    let text = expand_var_chars(text, TemplateVar::Time, params);
    let text = expand_var_chars(text, TemplateVar::Bandwidth, params);
    string_of(&text)
}

fn expand_var_chars(s: Vec<char>, var: TemplateVar, params: &TemplateVars) -> (out: Vec<char>)
    ensures
        out@ == expand_var(s@, var, params@),
{
    match params.get(var) {
        None => s,
        Some(value) => {
            let value_chars = chars_of(value.as_str());
            let token = var.plain_token_chars();
            let replaced = replace_chars(&s, &token, &value_chars);
            let prefix = var.padded_prefix_chars();
            expand_padded_chars(replaced, &prefix, &value_chars)
        },
    }
}

} // verus!
