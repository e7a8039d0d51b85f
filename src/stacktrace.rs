use vstd::prelude::*;

verus! {

/// A character of a Rust path segment: ASCII letter, digit or `_`.
pub open spec fn is_word_char(c: char) -> bool {
    ('a' <= c && c <= 'z') || ('A' <= c && c <= 'Z') || ('0' <= c && c <= '9') || c == '_'
}

/// The first index at or after `i` that holds no word character (or the length).
pub open spec fn word_run_end(s: Seq<char>, i: int) -> int
    decreases s.len() - i,
{
    if i < 0 || i >= s.len() || !is_word_char(s[i]) {
        i
    } else {
        word_run_end(s, i + 1)
    }
}

pub open spec fn starts_with_at(s: Seq<char>, i: int, p: Seq<char>) -> bool {
    0 <= i && i + p.len() <= s.len() && s.subrange(i, i + p.len()) == p
}

/// The crate a function name belongs to: after an optional leading `_<`,
/// a non-empty run of word characters followed by `::` or `..`.
pub open spec fn crate_name_of(f: Seq<char>) -> Option<Seq<char>> {
    let start = if starts_with_at(f, 0, seq!['_', '<']) { 2int } else { 0int };
    let e = word_run_end(f, start);
    if e > start && (starts_with_at(f, e, seq![':', ':']) || starts_with_at(f, e, seq!['.', '.'])) {
        Some(f.subrange(start, e))
    } else {
        None
    }
}

fn is_word(c: char) -> (r: bool)
    ensures
        r == is_word_char(c),
{
    ('a' <= c && c <= 'z') || ('A' <= c && c <= 'Z') || ('0' <= c && c <= '9') || c == '_'
}

fn has_pair_at(s: &str, n: usize, i: usize, a: char, b: char) -> (r: bool)
    requires
        n == s@.len(),
    ensures
        r == starts_with_at(s@, i as int, seq![a, b]),
{
    if i < n && i + 1 < n {
        let r = s.get_char(i) == a && s.get_char(i + 1) == b;
        assert(r ==> s@.subrange(i as int, i + 2) =~= seq![a, b]);
        assert(s@.subrange(i as int, i + 2) =~= seq![a, b] ==> s@.subrange(i as int, i + 2)[0] == a
            && s@.subrange(i as int, i + 2)[1] == b);
        r
    } else {
        false
    }
}

/// The crate a function name belongs to, when the name shows one.
pub fn parse_crate_name(func_name: &str) -> (r: Option<String>)
    ensures
        r matches Some(c) ==> crate_name_of(func_name@) == Some(c@),
        r is None ==> crate_name_of(func_name@) is None,
{
    let n = func_name.unicode_len();
    let start: usize = if has_pair_at(func_name, n, 0, '_', '<') { 2 } else { 0 };
    let mut e: usize = start;
    while e < n && is_word(func_name.get_char(e))
        invariant
            start <= e <= n,
            n == func_name@.len(),
            word_run_end(func_name@, start as int) == word_run_end(func_name@, e as int),
        decreases n - e,
    {
        e = e + 1;
    }
    if e > start && (has_pair_at(func_name, n, e, ':', ':') || has_pair_at(func_name, n, e, '.', '.')) {
        Some(String::from_str(func_name.substring_char(start, e)))
    } else {
        None
    }
}

/// The name without its leading `<` characters.
pub open spec fn trim_angles(s: Seq<char>) -> Seq<char>
    decreases s.len(),
{
    if s.len() > 0 && s[0] == '<' {
        trim_angles(s.skip(1))
    } else {
        s
    }
}

/// The name without its leading `_<` pairs.
pub open spec fn trim_trait_marks(s: Seq<char>) -> Seq<char>
    decreases s.len(),
{
    if starts_with_at(s, 0, seq!['_', '<']) {
        trim_trait_marks(s.skip(2))
    } else {
        s
    }
}

/// `f` begins with `p`, where a `.` in `f` also stands for a `:` in `p`.
pub open spec fn begins_like(f: Seq<char>, p: Seq<char>) -> bool {
    f.len() >= p.len() && forall|i: int| 0 <= i < p.len() ==> (#[trigger] f[i] == p[i] || (f[i] == '.'
        && p[i] == ':'))
}

/// The path prefixes of functions that belong to the runtime and libraries
/// rather than to the application.
pub open spec fn system_prefixes() -> Seq<Seq<char>> {
    seq![
        "std::"@,
        "core::"@,
        "alloc::"@,
        "backtrace::"@,
        "sentry::"@,
        "sentry_types::"@,
        "__rust_"@,
        "failure::"@,
    ]
}

pub open spec fn is_system_function(f: Seq<char>) -> bool {
    exists|i: int| 0 <= i < system_prefixes().len() && begins_like(trim_trait_marks(trim_angles(f)), #[trigger] system_prefixes()[i])
}

fn system_prefix(i: usize) -> (r: &'static str)
    requires
        i < 8,
    ensures
        r@ == system_prefixes()[i as int],
{
    if i == 0 { "std::" } else if i == 1 { "core::" } else if i == 2 { "alloc::" }
    else if i == 3 { "backtrace::" } else if i == 4 { "sentry::" } else if i == 5 { "sentry_types::" }
    else if i == 6 { "__rust_" } else { "failure::" }
}

fn begins_like_at(f: &str, start: usize, p: &str) -> (r: bool)
    requires
        start <= f@.len(),
    ensures
        r == begins_like(f@.skip(start as int), p@),
{
    let n = f.unicode_len();
    let m = p.unicode_len();
    if n - start < m {
        return false;
    }
    let mut i: usize = 0;
    while i < m
        invariant
            i <= m,
            m == p@.len(),
            n == f@.len(),
            start + m <= n,
            forall|j: int| 0 <= j < i ==> (#[trigger] f@.skip(start as int)[j] == p@[j] || (
                f@.skip(start as int)[j] == '.' && p@[j] == ':')),
        decreases m - i,
    {
        let a = f.get_char(start + i);
        let b = p.get_char(i);
        if !(a == b || (a == '.' && b == ':')) {
            assert(f@.skip(start as int)[i as int] == a);
            return false;
        }
        i = i + 1;
    }
    true
}

/// Whether a function belongs to the runtime or a library rather than to
/// the application, by the prefix of its path.
pub fn is_sys_function(func: &str) -> (r: bool)
    ensures
        r == is_system_function(func@),
{
    let n = func.unicode_len();
    let mut a: usize = 0;
    assert(func@.skip(0) =~= func@);
    while a < n && func.get_char(a) == '<'
        invariant
            a <= n,
            n == func@.len(),
            trim_angles(func@) == trim_angles(func@.skip(a as int)),
        decreases n - a,
    {
        assert(func@.skip(a as int).skip(1) =~= func@.skip(a + 1));
        a = a + 1;
    }
    assert(trim_angles(func@.skip(a as int)) == func@.skip(a as int));
    while has_pair_at(func, n, a, '_', '<')
        invariant
            a <= n,
            n == func@.len(),
            trim_trait_marks(trim_angles(func@)) == trim_trait_marks(func@.skip(a as int)),
        decreases n - a,
    {
        assert(func@.skip(a as int).skip(2) =~= func@.skip(a + 2));
        assert(starts_with_at(func@.skip(a as int), 0, seq!['_', '<'])) by {
            assert(func@.skip(a as int).subrange(0, 2) =~= func@.subrange(a as int, a + 2));
        }
        a = a + 2;
    }
    assert(!starts_with_at(func@.skip(a as int), 0, seq!['_', '<'])) by {
        if starts_with_at(func@.skip(a as int), 0, seq!['_', '<']) {
            assert(func@.skip(a as int).subrange(0, 2) =~= func@.subrange(a as int, a + 2));
        }
    }
    let ghost t = func@.skip(a as int);
    assert(trim_trait_marks(t) == t);
    let mut i: usize = 0;
    while i < 8
        invariant
            i <= 8,
            a <= n,
            n == func@.len(),
            t == func@.skip(a as int),
            trim_trait_marks(trim_angles(func@)) == t,
            forall|j: int| 0 <= j < i ==> !begins_like(t, #[trigger] system_prefixes()[j]),
        decreases 8 - i,
    {
        if begins_like_at(func, a, system_prefix(i)) {
            return true;
        }
        i = i + 1;
    }
    false
}

/// One frame of a crash report's stack trace.
#[derive(Debug, Clone, PartialEq, Eq)]
pub struct StackFrame {
    pub function: Option<String>,
    pub package: Option<String>,
    pub in_app: Option<bool>,
}

pub struct FrameModel {
    pub function: Option<Seq<char>>,
    pub package: Option<Seq<char>>,
    pub in_app: Option<bool>,
}

pub open spec fn opt_view(o: Option<String>) -> Option<Seq<char>> {
    match o {
        Some(s) => Some(s@),
        None => None,
    }
}

impl View for StackFrame {
    type V = FrameModel;

    open spec fn view(&self) -> FrameModel {
        FrameModel { function: opt_view(self.function), package: opt_view(self.package), in_app: self.in_app }
    }
}

pub open spec fn frame_views(v: Seq<StackFrame>) -> Seq<FrameModel> {
    v.map_values(|f: StackFrame| f@)
}

/// A named frame gets the crate its name shows as package when it has
/// none, and is marked as not the application's when its name is a system one.
pub open spec fn annotate(f: FrameModel) -> FrameModel {
    match f.function {
        None => f,
        Some(name) => FrameModel {
            function: f.function,
            package: if f.package is None { crate_name_of(name) } else { f.package },
            in_app: if f.in_app is None && is_system_function(name) { Some(false) } else { f.in_app },
        },
    }
}

/// Some named frame is already marked as the application's.
pub open spec fn any_in_app(frames: Seq<FrameModel>) -> bool {
    exists|i: int| 0 <= i < frames.len() && (#[trigger] frames[i]).function is Some && frames[i].in_app
        == Some(true)
}

/// A frame of the library's own error conversion, which says nothing of where the error arose.
pub open spec fn is_conversion_frame(f: FrameModel, prefix: Seq<char>) -> bool {
    f.function matches Some(name) && starts_with_at(name, 0, prefix)
}

/// When no frame was marked as the application's, every unmarked frame is.
pub open spec fn settle(f: FrameModel, any: bool) -> FrameModel {
    if !any && f.in_app is None {
        FrameModel { in_app: Some(true), ..f }
    } else {
        f
    }
}

/// The frames of a report: annotated, conversion frames left out, the rest settled.
pub open spec fn report_frames(frames: Seq<FrameModel>, prefix: Seq<char>, any: bool) -> Seq<FrameModel>
    decreases frames.len(),
{
    if frames.len() == 0 {
        Seq::empty()
    } else {
        let rest = report_frames(frames.drop_last(), prefix, any);
        let f = annotate(frames.last());
        if is_conversion_frame(f, prefix) {
            rest
        } else {
            rest.push(settle(f, any))
        }
    }
}

fn copy_text(o: &Option<String>) -> (r: Option<String>)
    ensures
        opt_view(r) == opt_view(*o),
{
    match o {
        Some(s) => Some(s.clone()),
        None => None,
    }
}

fn starts_with_text(s: &str, p: &str) -> (r: bool)
    ensures
        r == starts_with_at(s@, 0, p@),
{
    let n = s.unicode_len();
    let m = p.unicode_len();
    if n < m {
        return false;
    }
    let mut i: usize = 0;
    while i < m
        invariant
            i <= m <= n,
            m == p@.len(),
            n == s@.len(),
            forall|j: int| 0 <= j < i ==> #[trigger] s@[j] == p@[j],
        decreases m - i,
    {
        if s.get_char(i) != p.get_char(i) {
            assert(s@.subrange(0, m as int)[i as int] != p@[i as int]);
            return false;
        }
        i = i + 1;
    }
    assert(s@.subrange(0, m as int) =~= p@);
    true
}

fn annotate_frame(f: &StackFrame) -> (r: StackFrame)
    ensures
        r@ == annotate(f@),
{
    match &f.function {
        None => StackFrame { function: None, package: copy_text(&f.package), in_app: f.in_app },
        Some(name) => {
            let package = match &f.package {
                Some(p) => Some(p.clone()),
                None => parse_crate_name(name.as_str()),
            };
            let in_app = match f.in_app {
                None => if is_sys_function(name.as_str()) { Some(false) } else { None },
                Some(b) => Some(b),
            };
            StackFrame { function: Some(name.clone()), package, in_app }
        },
    }
}

/// The stack trace of a crash report made from captured frames: packages
/// filled in from function names, system functions marked as not the
/// application's, frames whose function starts with `conversion_prefix`
/// left out, and, when no named frame was marked as the application's,
/// every unmarked frame marked as the application's.
pub fn get_stacktrace(frames: &Vec<StackFrame>, conversion_prefix: &str) -> (r: Vec<StackFrame>)
    ensures
        frame_views(r@) == report_frames(
            frame_views(frames@),
            conversion_prefix@,
            any_in_app(frame_views(frames@)),
        ),
{
    let ghost v = frame_views(frames@);
    let mut any = false;
    let mut i: usize = 0;
    while i < frames.len()
        invariant
            i <= frames.len(),
            v == frame_views(frames@),
            any == exists|j: int| 0 <= j < i && (#[trigger] v[j]).function is Some && v[j].in_app
                == Some(true),
        decreases frames.len() - i,
    {
        if frames[i].function.is_some() && frames[i].in_app == Some(true) {
            assert(v[i as int].function is Some && v[i as int].in_app == Some(true));
            any = true;
        }
        i = i + 1;
    }
    let mut r: Vec<StackFrame> = Vec::new();
    let mut k: usize = 0;
    while k < frames.len()
        invariant
            k <= frames.len(),
            v == frame_views(frames@),
            any == any_in_app(v),
            frame_views(r@) == report_frames(v.take(k as int), conversion_prefix@, any),
        decreases frames.len() - k,
    {
        let a = annotate_frame(&frames[k]);
        assert(v.take(k + 1).drop_last() =~= v.take(k as int));
        let conversion = match &a.function {
            Some(name) => starts_with_text(name.as_str(), conversion_prefix),
            None => false,
        };
        if !conversion {
            let settled = if !any && a.in_app.is_none() {
                StackFrame { function: a.function, package: a.package, in_app: Some(true) }
            } else {
                a
            };
            let ghost before = frame_views(r@);
            r.push(settled);
            assert(frame_views(r@) =~= before.push(settled@));
        }
        k = k + 1;
    }
    assert(v.take(frames.len() as int) =~= v);
    r
}

} // verus!
