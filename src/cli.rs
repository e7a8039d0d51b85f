use vstd::prelude::*;

use crate::errors::{CustomError, CustomErrorKind};

verus! {

/// `a` sorts before `b` character by character, a proper prefix first.
pub open spec fn text_less(a: Seq<char>, b: Seq<char>) -> bool
    decreases a.len(),
{
    if a.len() == 0 {
        b.len() > 0
    } else if b.len() == 0 {
        false
    } else if a[0] != b[0] {
        (a[0] as int) < (b[0] as int)
    } else {
        text_less(a.skip(1), b.skip(1))
    }
}

proof fn lemma_text_less_irreflexive(a: Seq<char>)
    ensures
        !text_less(a, a),
    decreases a.len(),
{
    if a.len() > 0 {
        lemma_text_less_irreflexive(a.skip(1));
    }
}

proof fn lemma_text_less_total(a: Seq<char>, b: Seq<char>)
    ensures
        a != b ==> text_less(a, b) || text_less(b, a),
        !(text_less(a, b) && text_less(b, a)),
        !text_less(a, a),
    decreases a.len(),
{
    lemma_text_less_irreflexive(a);
    if a.len() > 0 && b.len() > 0 {
        lemma_text_less_total(a.skip(1), b.skip(1));
        if a[0] == b[0] && a.skip(1) == b.skip(1) {
            assert(a =~= seq![a[0]] + a.skip(1));
            assert(b =~= seq![b[0]] + b.skip(1));
        }
        if a[0] != b[0] {
            assert((a[0] as int) != (b[0] as int));
        }
    } else if a.len() == 0 && b.len() == 0 {
        assert(a =~= b);
    }
}

proof fn lemma_text_less_transitive(a: Seq<char>, b: Seq<char>, c: Seq<char>)
    requires
        text_less(a, b),
        text_less(b, c),
    ensures
        text_less(a, c),
    decreases a.len(),
{
    if a.len() > 0 && b.len() > 0 && c.len() > 0 && a[0] == b[0] && b[0] == c[0] {
        lemma_text_less_transitive(a.skip(1), b.skip(1), c.skip(1));
    }
}

pub uninterp spec fn lower_of(s: Seq<char>) -> Seq<char>;

/// Relies on str::to_lowercase: the lower-case form depends on the text alone.
#[verifier::external_body]
fn lowercase(s: &str) -> (r: String)
    ensures
        r@ == lower_of(s@),
{
    s.to_lowercase()
}

/// The names joined with `sep` between them.
pub open spec fn joined(names: Seq<Seq<char>>, sep: Seq<char>) -> Seq<char>
    decreases names.len(),
{
    if names.len() == 0 {
        Seq::empty()
    } else if names.len() == 1 {
        names[0]
    } else {
        joined(names.drop_last(), sep) + sep + names.last()
    }
}

pub open spec fn name_views(v: Seq<String>) -> Seq<Seq<char>> {
    v.map_values(|s: String| s@)
}

pub open spec fn invalid_command_message(names: Seq<Seq<char>>) -> Seq<char> {
    "Please provide a valid command. Available commands: "@ + joined(names, ", "@)
}

/// The commands of the program by name.
pub struct CliRunner<F> {
    pub names: Vec<String>,
    pub commands: Vec<F>,
}

impl<F> CliRunner<F> {
    /// One command per name, the names in sorted order.
    pub open spec fn wf(&self) -> bool {
        &&& self.names.len() == self.commands.len()
        &&& forall|i: int, j: int|
            0 <= i < j < self.names.len() ==> text_less(#[trigger] self.names@[i]@, #[trigger] self.names@[j]@)
    }

    pub open spec fn has(&self, name: Seq<char>) -> bool {
        exists|i: int| 0 <= i < self.names.len() && (#[trigger] self.names@[i])@ == name
    }

    /// The command registered under `name`.
    pub open spec fn command(&self, name: Seq<char>) -> F {
        self.commands@[choose|i: int| 0 <= i < self.names.len() && (#[trigger] self.names@[i])@ == name]
    }

    pub fn new() -> (r: CliRunner<F>)
        ensures
            r.wf(),
            forall|k: Seq<char>| !r.has(k),
    {
        CliRunner { names: Vec::new(), commands: Vec::new() }
    }

    /// Registers `func` under `command_name`, in place of any command registered under it.
    pub fn register_command(&mut self, command_name: &str, func: F)
        requires
            old(self).wf(),
        ensures
            final(self).wf(),
            final(self).has(command_name@),
            final(self).command(command_name@) == func,
            forall|k: Seq<char>| k != command_name@ ==> (final(self).has(k) == old(self).has(k)),
            forall|k: Seq<char>| k != command_name@ && old(self).has(k) ==> final(self).command(k) == old(self).command(k),
    {
        let name = String::from_str(command_name);
        let n = self.names.len();
        let mut pos: usize = 0;
        while pos < n && text_less_exec(self.names[pos].as_str(), command_name)
            invariant
                pos <= n,
                n == self.names.len(),
                self.wf(),
                forall|i: int| 0 <= i < pos ==> text_less(#[trigger] self.names@[i]@, command_name@),
            decreases n - pos,
        {
            pos = pos + 1;
        }
        let ghost old_names = self.names@;
        let ghost old_commands = self.commands@;
        if pos < n && self.names[pos] == name {
            proof {
                assert forall|i: int| 0 <= i < n && i != pos implies (#[trigger] old_names[i])@ != command_name@ by {
                    if i < pos {
                        lemma_text_less_total(old_names[i]@, command_name@);
                    } else {
                        lemma_text_less_total(old_names[pos as int]@, old_names[i]@);
                    }
                }
            }
            self.commands.set(pos, func);
            assert(self.commands@ == old_commands.update(pos as int, func));
            assert(self.names@ == old_names);
            proof {
                assert(self.names@[pos as int]@ == command_name@);
                let c = choose|i: int| 0 <= i < self.names.len() && (#[trigger] self.names@[i])@ == command_name@;
                assert(c == pos);
            }
        } else {
            proof {
                if pos < n {
                    lemma_text_less_total(old_names[pos as int]@, command_name@);
                    assert(old_names[pos as int]@ != command_name@);
                    assert(text_less(command_name@, old_names[pos as int]@));
                }
                assert forall|j: int| pos <= j < n implies text_less(command_name@, #[trigger] old_names[j]@) by {
                    if j > pos {
                        lemma_text_less_transitive(command_name@, old_names[pos as int]@, old_names[j]@);
                    }
                }
            }
            self.names.insert(pos, name);
            self.commands.insert(pos, func);
            assert(self.commands@ == old_commands.insert(pos as int, func));
            proof {
                assert(self.names@ == old_names.insert(pos as int, name));
                assert forall|i: int, j: int| 0 <= i < j < self.names.len() implies text_less(
                    #[trigger] self.names@[i]@,
                    #[trigger] self.names@[j]@,
                ) by {
                    if i < pos && j < pos {
                    } else if i < pos && j == pos {
                    } else if i < pos {
                        assert(self.names@[j] == old_names[j - 1]);
                    } else if i == pos {
                        assert(self.names@[j] == old_names[j - 1]);
                    } else {
                        assert(self.names@[i] == old_names[i - 1] && self.names@[j] == old_names[j - 1]);
                    }
                }
                assert forall|i: int| 0 <= i < self.names.len() && i != pos implies (#[trigger] self.names@[i])@
                    != command_name@ by {
                    lemma_text_less_total(self.names@[i]@, command_name@);
                    if i < pos {
                    } else {
                        assert(self.names@[i] == old_names[i - 1]);
                    }
                }
                assert(self.names@[pos as int]@ == command_name@);
                let c = choose|i: int| 0 <= i < self.names.len() && (#[trigger] self.names@[i])@ == command_name@;
                assert(c == pos);
                assert forall|k: Seq<char>| k != command_name@ implies (self.has(k) == (exists|i: int|
                    0 <= i < old_names.len() && (#[trigger] old_names[i])@ == k)) by {
                    if self.has(k) {
                        let i = choose|i: int| 0 <= i < self.names.len() && (#[trigger] self.names@[i])@ == k;
                        if i < pos {
                            assert(old_names[i]@ == k);
                        } else {
                            assert(self.names@[i] == old_names[i - 1]);
                        }
                    }
                    if exists|i: int| 0 <= i < old_names.len() && (#[trigger] old_names[i])@ == k {
                        let i = choose|i: int| 0 <= i < old_names.len() && (#[trigger] old_names[i])@ == k;
                        if i < pos {
                            assert(self.names@[i] == old_names[i]);
                        } else {
                            assert(self.names@[i + 1] == old_names[i]);
                        }
                    }
                }
            }
        }
        proof {
            lemma_unique_index(self.names@, command_name@);
            assert forall|k: Seq<char>| k != command_name@ && old(self).has(k) implies (
                self.has(k) && self.command(k) == old(self).command(k)) by {
                let i = choose|i: int| 0 <= i < old(self).names.len() && (#[trigger] old(self).names@[i])@ == k;
                let ni = if self.names.len() == old_names.len() || i < pos { i } else { i + 1 };
                assert(self.names@[ni] == old_names[i]);
                assert(self.names@[ni]@ == k);
                lemma_unique_index(self.names@, k);
                let c = choose|j: int| 0 <= j < self.names.len() && (#[trigger] self.names@[j])@ == k;
                assert(c == ni);
                if self.names.len() == old_names.len() {
                    assert(i != pos);
                    assert(self.commands@[ni] == old_commands[i]);
                } else {
                    assert(self.commands@[ni] == old_commands[i]);
                }
            }
        }
    }

    /// The command for an already lower-cased name, or the failure that lists
    /// the available commands.
    pub fn find_command_lowered(&self, lowered: &str) -> (r: Result<&F, CustomError>)
        requires
            self.wf(),
        ensures
            self.has(lowered@) ==> (r matches Ok(f) && *f == self.command(lowered@)),
            !self.has(lowered@) ==> (r matches Err(e) && e.kind is UserError && e.kind.spec_message()
                == invalid_command_message(name_views(self.names@))),
    {
        let name = String::from_str(lowered);
        let mut i: usize = 0;
        while i < self.names.len()
            invariant
                i <= self.names.len(),
                self.wf(),
                name@ == lowered@,
                forall|j: int| 0 <= j < i ==> (#[trigger] self.names@[j])@ != lowered@,
            decreases self.names.len() - i,
        {
            if self.names[i] == name {
                proof {
                    lemma_unique_index(self.names@, lowered@);
                }
                return Ok(&self.commands[i]);
            }
            i = i + 1;
        }
        Err(CustomError::from_kind(CustomErrorKind::UserError(self.invalid_command_text())))
    }

    /// The command named by the first argument, compared in lower case.
    pub fn find_command(&self, argument: Option<&str>) -> (r: Result<&F, CustomError>)
        requires
            self.wf(),
        ensures
            argument is None ==> (r matches Err(e) && e.kind is UserError && e.kind.spec_message()
                == invalid_command_message(name_views(self.names@))),
            argument matches Some(a) ==> (self.has(lower_of(a@)) ==> (r matches Ok(f) && *f == self.command(
                lower_of(a@),
            ))),
            argument matches Some(a) ==> (!self.has(lower_of(a@)) ==> (r matches Err(e) && e.kind is UserError
                && e.kind.spec_message() == invalid_command_message(name_views(self.names@)))),
    {
        match argument {
            None => Err(CustomError::from_kind(CustomErrorKind::UserError(self.invalid_command_text()))),
            Some(a) => {
                let lowered = lowercase(a);
                self.find_command_lowered(lowered.as_str())
            },
        }
    }

    fn invalid_command_text(&self) -> (r: String)
        ensures
            r@ == invalid_command_message(name_views(self.names@)),
    {
        let mut s = String::from_str("Please provide a valid command. Available commands: ");
        let ghost start = s@;
        let mut i: usize = 0;
        while i < self.names.len()
            invariant
                i <= self.names.len(),
                s@ == start + joined(name_views(self.names@).take(i as int), ", "@),
            decreases self.names.len() - i,
        {
            let ghost before = name_views(self.names@).take(i as int);
            if i > 0 {
                s.append(", ");
            }
            s.append(self.names[i].as_str());
            proof {
                let now = name_views(self.names@).take(i + 1);
                assert(now.drop_last() =~= before);
                if i == 0 {
                    assert(before =~= Seq::<Seq<char>>::empty());
                    assert(now.len() == 1);
                }
            }
            i = i + 1;
        }
        assert(name_views(self.names@).take(i as int) =~= name_views(self.names@));
        s
    }
}

proof fn lemma_unique_index(names: Seq<String>, k: Seq<char>)
    requires
        forall|i: int, j: int| 0 <= i < j < names.len() ==> text_less(#[trigger] names[i]@, #[trigger] names[j]@),
    ensures
        forall|i: int, j: int|
            0 <= i < names.len() && 0 <= j < names.len() && (#[trigger] names[i])@ == k && (#[trigger] names[j])@
                == k ==> i == j,
{
    assert forall|i: int, j: int|
        0 <= i < names.len() && 0 <= j < names.len() && (#[trigger] names[i])@ == k && (#[trigger] names[j])@ == k implies i
            == j by {
        if i < j {
            lemma_text_less_total(names[i]@, names[j]@);
        } else if j < i {
            lemma_text_less_total(names[j]@, names[i]@);
        }
    }
}

/// Whether `a` sorts before `b`.
pub fn text_less_exec(a: &str, b: &str) -> (r: bool)
    ensures
        r == text_less(a@, b@),
{
    let n = a.unicode_len();
    let m = b.unicode_len();
    let mut i: usize = 0;
    assert(a@.skip(0) =~= a@ && b@.skip(0) =~= b@);
    while i < n && i < m && a.get_char(i) == b.get_char(i)
        invariant
            i <= n,
            i <= m,
            n == a@.len(),
            m == b@.len(),
            text_less(a@, b@) == text_less(a@.skip(i as int), b@.skip(i as int)),
        decreases n - i,
    {
        assert(a@.skip(i as int).skip(1) =~= a@.skip(i + 1));
        assert(b@.skip(i as int).skip(1) =~= b@.skip(i + 1));
        i = i + 1;
    }
    if i == n {
        i < m
    } else if i == m {
        false
    } else {
        (a.get_char(i) as u32) < (b.get_char(i) as u32)
    }
}

} // verus!
