//! HTTP filters: patterns that are proved to be regular expressions when a
//! client subscribes, and held against each request of a filtered connection.

use crate::protocol::{
    ClientId, FilterPartSpec, FilterPartView, FilterSubject, HttpFilterSpec, HttpFilterView,
    HttpHeaderView, MatchMode, ParsedRequest, ParsedRequestView,
};
use vstd::prelude::*;
use vstd::string::*;

verus! {

/// The longest pattern that is compiled, in characters.
pub const MAX_PATTERN_LENGTH: usize = 1024;

/// The most opening braces that a pattern may hold.
pub const MAX_BRACES: usize = 6;

/// What a client is told of a pattern that is turned down before it is
/// compiled.
pub const UNSUPPORTED_PATTERN: &'static str =
    "pattern is too long or holds a construct that is not supported";

/// Whether `c` is a blank that a pattern may skip.
pub open spec fn is_blank(c: char) -> bool {
    c == ' ' || c == '\t' || c == '\r' || c == '\n'
}

/// Whether `c` is a decimal digit.
pub open spec fn is_digit(c: char) -> bool {
    48 <= c as u32 <= 57
}

/// Whether `c` is an opening brace.
pub open spec fn is_brace() -> spec_fn(char) -> bool {
    |c: char| c == '{'
}

/// Whether a construct that is not compiled stands at `j` in `pattern`:
/// - the question mark of a conditional group, `(?(`, also with a blank
///   between the parentheses;
/// - the start of a comment, `(?#`;
/// - a reference to a group by name, `\k`;
/// - a brace, a comma or a blank before three digits, as in a repetition
///   count of more than two digits.
pub open spec fn refused_at(pattern: Seq<char>, j: int) -> bool {
    ||| 1 <= j < pattern.len() - 1 && pattern[j] == '?' && pattern[j + 1] == '(' && (pattern[j
        - 1] == '(' || is_blank(pattern[j - 1]))
    ||| 0 <= j < pattern.len() - 2 && pattern[j] == '(' && pattern[j + 1] == '?' && pattern[j
        + 2] == '#'
    ||| 0 <= j < pattern.len() - 1 && pattern[j] == '\\' && pattern[j + 1] == 'k'
    ||| 0 <= j < pattern.len() - 3 && (pattern[j] == '{' || pattern[j] == ',' || is_blank(
        pattern[j],
    )) && is_digit(pattern[j + 1]) && is_digit(pattern[j + 2]) && is_digit(pattern[j + 3])
}

/// Whether `pattern` is handed to the compiler: it is not too long, holds
/// few braces, and none of the constructs of `refused_at`.
pub open spec fn supported(pattern: Seq<char>) -> bool {
    &&& pattern.len() <= MAX_PATTERN_LENGTH
    &&& pattern.filter(is_brace()).len() <= MAX_BRACES
    &&& forall|j: int| 0 <= j < pattern.len() ==> !refused_at(pattern, j)
}

/// What `fancy_regex::Regex::new` answers for a supported `pattern`: `None`
/// where the pattern compiles, else the text of the error.
pub uninterp spec fn regex_compile_error(pattern: Seq<char>) -> Option<Seq<char>>;

/// What `fancy_regex::Regex::is_match` answers for the regular expression
/// compiled from a supported `pattern`, held against `text`: whether it
/// matches somewhere in the text; `None` where the search gives up.
pub uninterp spec fn regex_is_match(pattern: Seq<char>, text: Seq<char>) -> Option<bool>;

/// Why `pattern` is no filter pattern: the message for a pattern that is
/// not supported, or the compiler's message; `None` for a pattern that
/// compiles.
pub open spec fn pattern_problem(pattern: Seq<char>) -> Option<Seq<char>> {
    if supported(pattern) {
        regex_compile_error(pattern)
    } else {
        Some(UNSUPPORTED_PATTERN@)
    }
}

/// Compiles `pattern` with `fancy_regex::Regex::new` and hands back the text
/// of the error, if there is one.
///
/// The contract claims that the outcome depends on the pattern alone. It
/// leaves out the patterns on which the parser of `fancy_regex` reads past
/// the end of the pattern (a conditional group that is not closed), asks for
/// memory by a number written in the pattern (`\k` with a number for a
/// name), or multiplies repetition counts beyond what a machine word holds.
#[verifier::external_body]
fn pattern_error(pattern: &str) -> (r: Option<String>)
    requires
        supported(pattern@),
    ensures
        match r {
            Some(message) => regex_compile_error(pattern@) == Some(message@),
            None => regex_compile_error(pattern@) is None,
        },
{
    match fancy_regex::Regex::new(pattern) {
        Ok(_) => None,
        Err(error) => Some(error.to_string()),
    }
}

/// Holds the regular expression written in `pattern` against `text` with
/// `fancy_regex::Regex::is_match`.
///
/// The contract claims that the answer depends on the pattern and the text
/// alone. It is for patterns that `fancy_regex::Regex::new` has compiled
/// before, so that compiling them again here gives the same expression.
#[verifier::external_body]
fn is_match(pattern: &str, text: &str) -> (r: Option<bool>)
    requires
        supported(pattern@),
        regex_compile_error(pattern@) is None,
    ensures
        r == regex_is_match(pattern@, text@),
{
    match fancy_regex::Regex::new(pattern) {
        Ok(regex) => regex.is_match(text).ok(),
        Err(_) => None,
    }
}

fn blank(c: char) -> (r: bool)
    ensures
        r == is_blank(c),
{
    c == ' ' || c == '\t' || c == '\r' || c == '\n'
}

fn digit(c: char) -> (r: bool)
    ensures
        r == is_digit(c),
{
    let code = c as u32;
    48 <= code && code <= 57
}

/// Whether a construct that is not compiled stands at `i` in `pattern`.
fn refused_here(pattern: &str, length: usize, i: usize) -> (r: bool)
    requires
        length == pattern@.len(),
        length <= MAX_PATTERN_LENGTH,
        i < length,
    ensures
        r == refused_at(pattern@, i as int),
{
    let c = pattern.get_char(i);
    if c == '?' {
        if 1 <= i && i + 1 < length {
            let before = pattern.get_char(i - 1);
            pattern.get_char(i + 1) == '(' && (before == '(' || blank(before))
        } else {
            false
        }
    } else if c == '(' {
        i + 2 < length && pattern.get_char(i + 1) == '?' && pattern.get_char(i + 2) == '#'
    } else if c == '\\' {
        i + 1 < length && pattern.get_char(i + 1) == 'k'
    } else if c == '{' || c == ',' || blank(c) {
        i + 3 < length && digit(pattern.get_char(i + 1)) && digit(pattern.get_char(i + 2))
            && digit(pattern.get_char(i + 3))
    } else {
        false
    }
}

/// Whether `pattern` is handed to the compiler.
pub fn is_supported(pattern: &str) -> (r: bool)
    ensures
        r == supported(pattern@),
{
    let length = pattern.unicode_len();
    if length > MAX_PATTERN_LENGTH {
        return false;
    }
    let mut braces: usize = 0;
    let mut i: usize = 0;
    proof {
        crate::relation::lemma_filter_none(pattern@.take(0), is_brace());
    }
    while i < length
        invariant
            length == pattern@.len(),
            length <= MAX_PATTERN_LENGTH,
            i <= length,
            braces <= i,
            braces == pattern@.take(i as int).filter(is_brace()).len(),
            forall|j: int| 0 <= j < i ==> !refused_at(pattern@, j),
        decreases length - i,
    {
        if refused_here(pattern, length, i) {
            return false;
        }
        proof {
            pattern@.lemma_take_succ_push(i as int);
            pattern@.take(i as int).lemma_filter_push(pattern@[i as int], is_brace());
        }
        if pattern.get_char(i) == '{' {
            braces += 1;
        }
        i += 1;
    }
    proof {
        pattern@.lemma_take_len();
    }
    braces <= MAX_BRACES
}

/// Why `pattern` is no filter pattern, if it is none: it is not supported,
/// or the compiler refuses it.
fn problem_of(pattern: &str) -> (r: Option<String>)
    ensures
        match r {
            Some(message) => pattern_problem(pattern@) == Some(message@),
            None => pattern_problem(pattern@) is None,
        },
{
    if is_supported(pattern) {
        pattern_error(pattern)
    } else {
        Some(String::from_str(UNSUPPORTED_PATTERN))
    }
}

/// The pattern as it is compiled: told to ignore case.
pub open spec fn case_insensitive(pattern: Seq<char>) -> Seq<char> {
    "(?i)"@ + pattern
}

/// A part as it is compiled.
pub open spec fn compiled_part(part: FilterPartView) -> FilterPartView {
    FilterPartView { subject: part.subject, pattern: case_insensitive(part.pattern) }
}

/// A filter as it is compiled.
pub open spec fn compiled(filter: HttpFilterView) -> HttpFilterView {
    HttpFilterView {
        mode: filter.mode,
        parts: filter.parts.map_values(|part: FilterPartView| compiled_part(part)),
    }
}

/// The filter that holds `pattern` against the names of a request's headers.
pub open spec fn header_filter(pattern: Seq<char>) -> HttpFilterView {
    HttpFilterView {
        mode: MatchMode::All,
        parts: seq![FilterPartView { subject: FilterSubject::Header, pattern }],
    }
}

/// The error of the first part from `from` on that does not compile.
pub open spec fn compile_error_from(parts: Seq<FilterPartView>, from: int) -> Option<Seq<char>>
    decreases parts.len() - from,
{
    if from < 0 || from >= parts.len() {
        None
    } else {
        match pattern_problem(case_insensitive(parts[from].pattern)) {
            Some(message) => Some(message),
            None => compile_error_from(parts, from + 1),
        }
    }
}

/// The error of the first part of `filter` that does not compile.
pub open spec fn filter_compile_error(filter: HttpFilterView) -> Option<Seq<char>> {
    compile_error_from(filter.parts, 0)
}

/// Every pattern of a compiled filter is a regular expression.
pub open spec fn filter_wf(filter: HttpFilterView) -> bool {
    forall|i: int|
        0 <= i < filter.parts.len() ==> pattern_problem(#[trigger] filter.parts[i].pattern)
            is None
}

/// Whether `pattern` matches somewhere in `text`.
pub open spec fn matches_text(pattern: Seq<char>, text: Seq<char>) -> bool {
    regex_is_match(pattern, text) == Some(true)
}

/// What a filter decides from the outcomes of its parts: that it matches, if
/// all of them match or if any one does, as its mode says.
pub open spec fn decided(mode: MatchMode, outcomes: Seq<bool>) -> bool {
    match mode {
        MatchMode::All => forall|i: int| 0 <= i < outcomes.len() ==> outcomes[i],
        MatchMode::Any => exists|i: int| 0 <= i < outcomes.len() && outcomes[i],
    }
}

/// Whether `pattern` matches the name of a header.
pub open spec fn header_outcome(pattern: Seq<char>) -> spec_fn(HttpHeaderView) -> bool {
    |header: HttpHeaderView| matches_text(pattern, header.name)
}

/// Whether one part of a filter matches `request`: a pattern over headers
/// if it matches the name of any header.
pub open spec fn part_matches(part: FilterPartView, request: ParsedRequestView) -> bool {
    match part.subject {
        FilterSubject::Header => decided(
            MatchMode::Any,
            request.headers.map_values(header_outcome(part.pattern)),
        ),
        FilterSubject::Path => matches_text(part.pattern, request.path),
        FilterSubject::Method => matches_text(part.pattern, request.method),
    }
}

/// Whether a part of a filter matches `request`.
pub open spec fn part_outcome(request: ParsedRequestView) -> spec_fn(FilterPartView) -> bool {
    |part: FilterPartView| part_matches(part, request)
}

/// Whether `filter` matches `request`: all of its parts, or any one of them,
/// as its mode says.
pub open spec fn filter_matches(filter: HttpFilterView, request: ParsedRequestView) -> bool {
    decided(filter.mode, filter.parts.map_values(part_outcome(request)))
}

/// Decides from the outcomes of a filter's parts whether the filter matches.
pub fn decide(mode: MatchMode, outcomes: &Vec<bool>) -> (r: bool)
    ensures
        r == decided(mode, outcomes@),
{
    let mut i: usize = 0;
    match mode {
        MatchMode::All => {
            while i < outcomes.len()
                invariant
                    mode == MatchMode::All,
                    i <= outcomes@.len(),
                    forall|j: int| 0 <= j < i ==> outcomes@[j],
                decreases outcomes@.len() - i,
            {
                if !outcomes[i] {
                    return false;
                }
                i += 1;
            }
            true
        },
        MatchMode::Any => {
            while i < outcomes.len()
                invariant
                    mode == MatchMode::Any,
                    i <= outcomes@.len(),
                    forall|j: int| 0 <= j < i ==> !outcomes@[j],
                decreases outcomes@.len() - i,
            {
                if outcomes[i] {
                    return true;
                }
                i += 1;
            }
            false
        },
    }
}

/// One compiled pattern of a filter.
#[derive(Debug, PartialEq, Eq)]
pub struct FilterPart {
    subject: FilterSubject,
    pattern: String,
}

impl View for FilterPart {
    type V = FilterPartView;

    closed spec fn view(&self) -> FilterPartView {
        FilterPartView { subject: self.subject, pattern: self.pattern@ }
    }
}

impl Clone for FilterPart {
    fn clone(&self) -> (r: Self)
        ensures
            r@ == self@,
    {
        proof {
            use_type_invariant(self);
        }
        FilterPart { subject: self.subject, pattern: self.pattern.clone() }
    }
}

impl FilterPart {
    /// The pattern of a part is one that the compiler took.
    #[verifier::type_invariant]
    spec fn compiles(self) -> bool {
        pattern_problem(self.pattern@) is None
    }

    fn compile(part: &FilterPartSpec) -> (r: Result<FilterPart, String>)
        ensures
            match r {
                Ok(compiled) => {
                    &&& pattern_problem(case_insensitive(part@.pattern)) is None
                    &&& compiled@ == compiled_part(part@)
                },
                Err(message) => pattern_problem(case_insensitive(part@.pattern)) == Some(
                    message@,
                ),
            },
    {
        let mut pattern = String::from_str("(?i)");
        pattern.append(part.pattern.as_str());
        match problem_of(pattern.as_str()) {
            Some(message) => Err(message),
            None => Ok(FilterPart { subject: part.subject, pattern }),
        }
    }

    fn matches(&self, request: &ParsedRequest) -> (r: bool)
        ensures
            r == part_matches(self@, request@),
    {
        proof {
            use_type_invariant(self);
        }
        match self.subject {
            FilterSubject::Header => {
                let mut outcomes: Vec<bool> = Vec::new();
                let mut i: usize = 0;
                let ghost all = request@.headers.map_values(header_outcome(self@.pattern));
                assert(outcomes@ =~= all.take(0));
                while i < request.headers.len()
                    invariant
                        pattern_problem(self.pattern@) is None,
                        i <= request.headers@.len(),
                        all == request@.headers.map_values(header_outcome(self@.pattern)),
                        outcomes@ == all.take(i as int),
                    decreases request.headers@.len() - i,
                {
                    let outcome = is_match(
                        self.pattern.as_str(),
                        request.headers[i].name.as_str(),
                    );
                    assert(request@.headers[i as int].name == request.headers@[i as int].name@);
                    proof {
                        all.lemma_take_succ_push(i as int);
                    }
                    outcomes.push(
                        match outcome {
                            Some(matched) => matched,
                            None => false,
                        },
                    );
                    i += 1;
                }
                proof {
                    all.lemma_take_len();
                }
                decide(MatchMode::Any, &outcomes)
            },
            FilterSubject::Path => {
                let outcome = is_match(self.pattern.as_str(), request.path.as_str());
                match outcome {
                    Some(matched) => matched,
                    None => false,
                }
            },
            FilterSubject::Method => {
                let outcome = is_match(self.pattern.as_str(), request.method.as_str());
                match outcome {
                    Some(matched) => matched,
                    None => false,
                }
            },
        }
    }
}

/// A compiled filter over HTTP requests.
#[derive(Debug, PartialEq, Eq)]
pub struct HttpFilter {
    mode: MatchMode,
    parts: Vec<FilterPart>,
}

impl View for HttpFilter {
    type V = HttpFilterView;

    closed spec fn view(&self) -> HttpFilterView {
        HttpFilterView { mode: self.mode, parts: self.parts@.map_values(|p: FilterPart| p@) }
    }
}

impl Clone for HttpFilter {
    fn clone(&self) -> (r: Self)
        ensures
            r@ == self@,
    {
        let mut parts: Vec<FilterPart> = Vec::new();
        let mut i: usize = 0;
        while i < self.parts.len()
            invariant
                i <= self.parts@.len(),
                parts@.len() == i,
                forall|j: int| 0 <= j < i ==> (#[trigger] parts@[j])@ == self.parts@[j]@,
            decreases self.parts@.len() - i,
        {
            parts.push(self.parts[i].clone());
            i += 1;
        }
        let r = HttpFilter { mode: self.mode, parts };
        assert(r@.parts =~= self@.parts);
        r
    }
}

impl HttpFilter {
    /// Every pattern of the filter is a regular expression.
    pub open spec fn wf(&self) -> bool {
        filter_wf(self@)
    }

    /// Compiles the filter that holds `pattern`, ignoring case, against the
    /// names of a request's headers; or hands back the compiler's message.
    pub fn new_header_filter(pattern: &str) -> (r: Result<HttpFilter, String>)
        ensures
            match r {
                Ok(filter) => {
                    &&& pattern_problem(case_insensitive(pattern@)) is None
                    &&& filter@ == header_filter(case_insensitive(pattern@))
                    &&& filter.wf()
                },
                Err(message) => pattern_problem(case_insensitive(pattern@)) == Some(message@),
            },
    {
        let mut compiled = String::from_str("(?i)");
        compiled.append(pattern);
        match problem_of(compiled.as_str()) {
            Some(message) => Err(message),
            None => {
                let mut parts: Vec<FilterPart> = Vec::new();
                parts.push(FilterPart { subject: FilterSubject::Header, pattern: compiled });
                let filter = HttpFilter { mode: MatchMode::All, parts };
                assert(filter@.parts =~= header_filter(case_insensitive(pattern@)).parts);
                Ok(filter)
            },
        }
    }

    /// Compiles an extended filter, each pattern ignoring case; or hands back
    /// the compiler's message for the first pattern that it refuses.
    pub fn try_from_spec(spec: &HttpFilterSpec) -> (r: Result<HttpFilter, String>)
        ensures
            match r {
                Ok(filter) => {
                    &&& filter_compile_error(spec@) is None
                    &&& filter@ == compiled(spec@)
                    &&& filter.wf()
                },
                Err(message) => filter_compile_error(spec@) == Some(message@),
            },
    {
        let mut parts: Vec<FilterPart> = Vec::new();
        let mut i: usize = 0;
        while i < spec.parts.len()
            invariant
                i <= spec.parts@.len(),
                parts@.len() == i,
                compile_error_from(spec@.parts, 0) == compile_error_from(spec@.parts, i as int),
                forall|j: int|
                    0 <= j < i ==> (#[trigger] parts@[j])@ == compiled_part(spec@.parts[j]),
                forall|j: int|
                    0 <= j < i ==> pattern_problem(
                        case_insensitive((#[trigger] spec@.parts[j]).pattern),
                    ) is None,
            decreases spec.parts@.len() - i,
        {
            assert(spec@.parts[i as int] == spec.parts@[i as int]@);
            match FilterPart::compile(&spec.parts[i]) {
                Ok(part) => {
                    parts.push(part);
                },
                Err(message) => {
                    return Err(message);
                },
            }
            i += 1;
        }
        let filter = HttpFilter { mode: spec.mode, parts };
        assert(filter@.parts =~= compiled(spec@).parts);
        Ok(filter)
    }

    /// Whether the filter matches `request`: holds every pattern against the
    /// request and decides from the outcomes.
    pub fn matches(&self, request: &ParsedRequest) -> (r: bool)
        ensures
            r == filter_matches(self@, request@),
    {
        let mut outcomes: Vec<bool> = Vec::new();
        let mut i: usize = 0;
        let ghost all = self@.parts.map_values(part_outcome(request@));
        assert(outcomes@ =~= all.take(0));
        while i < self.parts.len()
            invariant
                i <= self.parts@.len(),
                all == self@.parts.map_values(part_outcome(request@)),
                outcomes@ == all.take(i as int),
            decreases self.parts@.len() - i,
        {
            assert(self@.parts[i as int] == self.parts@[i as int]@);
            proof {
                all.lemma_take_succ_push(i as int);
            }
            outcomes.push(self.parts[i].matches(request));
            i += 1;
        }
        proof {
            all.lemma_take_len();
        }
        decide(self.mode, &outcomes)
    }
}

/// A client's filter on a port.
#[derive(Debug, PartialEq, Eq)]
pub struct FilterEntry {
    pub client_id: ClientId,
    pub filter: HttpFilter,
}

pub struct FilterEntryView {
    pub client_id: ClientId,
    pub filter: HttpFilterView,
}

impl View for FilterEntry {
    type V = FilterEntryView;

    open spec fn view(&self) -> FilterEntryView {
        FilterEntryView { client_id: self.client_id, filter: self.filter@ }
    }
}

impl Clone for FilterEntry {
    fn clone(&self) -> (r: Self)
        ensures
            r@ == self@,
    {
        FilterEntry { client_id: self.client_id, filter: self.filter.clone() }
    }
}

/// The filters of a port, each by its view.
pub open spec fn filters_view(filters: Seq<FilterEntry>) -> Seq<FilterEntryView> {
    filters.map_values(|e: FilterEntry| e@)
}

/// Where the first `true` stands in `outcomes` from `from` on.
pub open spec fn first_true_from(outcomes: Seq<bool>, from: int) -> Option<int>
    decreases outcomes.len() - from,
{
    if from < 0 || from >= outcomes.len() {
        None
    } else if outcomes[from] {
        Some(from)
    } else {
        first_true_from(outcomes, from + 1)
    }
}

/// Where the first `true` stands in `outcomes`.
pub open spec fn first_true(outcomes: Seq<bool>) -> Option<int> {
    first_true_from(outcomes, 0)
}

/// The client of the first filter whose outcome is `true`: the outcomes
/// stand in the order of the filters, and one without a filter counts for
/// nothing.
pub open spec fn selected(filters: Seq<FilterEntryView>, outcomes: Seq<bool>) -> Option<ClientId> {
    match first_true(outcomes) {
        Some(i) if i < filters.len() => Some(filters[i].client_id),
        _ => None,
    }
}

/// Whether the filter of an entry matches `request`.
pub open spec fn filter_outcome(request: ParsedRequestView) -> spec_fn(FilterEntryView) -> bool {
    |entry: FilterEntryView| filter_matches(entry.filter, request)
}

/// The client that a request goes to: the first, in the order of
/// subscription, whose filter matches it.
pub open spec fn first_match(filters: Seq<FilterEntryView>, request: ParsedRequestView) -> Option<
    ClientId,
> {
    selected(filters, filters.map_values(filter_outcome(request)))
}

/// What `first_true_from` finds: a `true` with none between `from` and it, or
/// that there is none from `from` on.
pub proof fn lemma_first_true_from(outcomes: Seq<bool>, from: int)
    requires
        0 <= from,
    ensures
        match first_true_from(outcomes, from) {
            Some(i) => {
                &&& from <= i < outcomes.len()
                &&& outcomes[i]
                &&& forall|j: int| from <= j < i ==> !outcomes[j]
            },
            None => forall|j: int| from <= j < outcomes.len() ==> !outcomes[j],
        },
    decreases outcomes.len() - from,
{
    if from < outcomes.len() && !outcomes[from] {
        lemma_first_true_from(outcomes, from + 1);
    }
}

/// A request goes to a client if and only if that client's filter matches it
/// and no filter of an earlier subscriber does: later subscribers do not
/// get a request that an earlier one takes.
pub proof fn lemma_first_match_is_first(
    filters: Seq<FilterEntryView>,
    request: ParsedRequestView,
    i: int,
)
    requires
        0 <= i < filters.len(),
    ensures
        (filter_matches(filters[i].filter, request) && forall|j: int|
            0 <= j < i ==> !filter_matches(#[trigger] filters[j].filter, request)) ==> first_match(
            filters,
            request,
        ) == Some(filters[i].client_id),
        (forall|j: int|
            0 <= j < filters.len() ==> !filter_matches(#[trigger] filters[j].filter, request))
            <==> first_match(filters, request) is None,
{
    let outcomes = filters.map_values(filter_outcome(request));
    lemma_first_true_from(outcomes, 0);
    if filter_matches(filters[i].filter, request) && forall|j: int|
        0 <= j < i ==> !filter_matches(#[trigger] filters[j].filter, request) {
        assert(outcomes[i]);
        match first_true(outcomes) {
            Some(k) => {
                if k < i {
                    assert(!filter_matches(filters[k].filter, request));
                }
            },
            None => {},
        }
    }
    if forall|j: int|
        0 <= j < filters.len() ==> !filter_matches(#[trigger] filters[j].filter, request) {
        if let Some(k) = first_true(outcomes) {
            assert(!filter_matches(filters[k].filter, request));
        }
    }
    if first_match(filters, request) is None {
        assert forall|j: int| 0 <= j < filters.len() implies !filter_matches(
            #[trigger] filters[j].filter,
            request,
        ) by {
            assert(!outcomes[j]);
        }
    }
}

/// Picks the client of the first filter whose outcome is `true`.
pub fn select_client(filters: &Vec<FilterEntry>, outcomes: &Vec<bool>) -> (r: Option<ClientId>)
    ensures
        r == selected(filters_view(filters@), outcomes@),
{
    let mut i: usize = 0;
    while i < outcomes.len()
        invariant
            i <= outcomes@.len(),
            first_true(outcomes@) == first_true_from(outcomes@, i as int),
        decreases outcomes@.len() - i,
    {
        if outcomes[i] {
            if i < filters.len() {
                assert(filters_view(filters@)[i as int] == filters@[i as int]@);
                return Some(filters[i].client_id);
            } else {
                return None;
            }
        }
        i += 1;
    }
    None
}

/// The client that `request` goes to: the first, in the order of
/// subscription, whose filter matches it; `None` when no filter does. Every
/// filter is held against the request, and the choice is made from the
/// outcomes.
pub fn first_matching_client(filters: &Vec<FilterEntry>, request: &ParsedRequest) -> (r: Option<
    ClientId,
>)
    ensures
        r == first_match(filters_view(filters@), request@),
{
    let mut outcomes: Vec<bool> = Vec::new();
    let mut i: usize = 0;
    let ghost all = filters_view(filters@).map_values(filter_outcome(request@));
    assert(outcomes@ =~= all.take(0));
    while i < filters.len()
        invariant
            i <= filters@.len(),
            all == filters_view(filters@).map_values(filter_outcome(request@)),
            outcomes@ == all.take(i as int),
        decreases filters@.len() - i,
    {
        assert(filters_view(filters@)[i as int] == filters@[i as int]@);
        proof {
            all.lemma_take_succ_push(i as int);
        }
        outcomes.push(filters[i].filter.matches(request));
        i += 1;
    }
    proof {
        all.lemma_take_len();
    }
    select_client(filters, &outcomes)
}

} // verus!
