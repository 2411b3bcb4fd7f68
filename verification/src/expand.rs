//! Placeholder expansion: resolving named `{placeholder}` tokens in a
//! template string against a table of bindings built from the task
//! configuration.
//!
//! Expansion is pure: the result is a function of the template and the
//! binding table alone, so the same template expands to the same string on
//! every call. A placeholder with no binding is an error naming that
//! placeholder; it is never silently dropped or left in the output. A `{`
//! with no closing `}` is ordinary text.

use vstd::prelude::*;

verus! {

/// Error of an expansion: the template named a placeholder with no binding.
#[derive(Debug, Clone)]
pub struct ExpandError {
    pub placeholder: String,
}

/// One placeholder binding: a placeholder name and its literal value.
#[derive(Debug, Clone)]
pub struct Binding {
    pub name: String,
    pub value: String,
}

/// The mathematical reading of a list of bindings as a lookup table.
/// A later binding for the same name wins.
pub open spec fn binding_map(entries: Seq<(Seq<char>, Seq<char>)>) -> Map<Seq<char>, Seq<char>>
    decreases entries.len(),
{
    if entries.len() == 0 {
        Map::empty()
    } else {
        binding_map(entries.drop_last()).insert(entries.last().0, entries.last().1)
    }
}

/// The views of a list of bindings, in order.
pub open spec fn entries_view(entries: Seq<Binding>) -> Seq<(Seq<char>, Seq<char>)> {
    entries.map_values(|b: Binding| (b.name@, b.value@))
}

/// Index of the first `}` in `t`, if any.
pub open spec fn find_close(t: Seq<char>) -> Option<int>
    decreases t.len(),
{
    if t.len() == 0 {
        Option::None
    } else if t[0] == '}' {
        Option::Some(0int)
    } else {
        match find_close(t.skip(1)) {
            Option::None => Option::None,
            Option::Some(j) => Option::Some(j + 1),
        }
    }
}

/// `find_close` returns the position of the first `}`, and `None` exactly
/// when `t` has no `}` at all.
pub proof fn lemma_find_close(t: Seq<char>)
    ensures
        match find_close(t) {
            Option::Some(j) => 0 <= j < t.len() && t[j] == '}' && (forall|k: int|
                0 <= k < j ==> t[k] != '}'),
            Option::None => forall|k: int| 0 <= k < t.len() ==> t[k] != '}',
        },
    decreases t.len(),
{
    if t.len() == 0 {
    } else if t[0] == '}' {
    } else {
        let s = t.skip(1);
        lemma_find_close(s);
        assert(forall|k: int| 0 <= k < s.len() ==> s[k] == t[k + 1]);
        match find_close(s) {
            Option::Some(j) => {
                assert(t[j + 1] == s[j]);
                assert forall|k: int| 0 <= k < j + 1 implies t[k] != '}' by {
                    if k > 0 {
                        assert(t[k] == s[k - 1]);
                    }
                }
            },
            Option::None => {
                assert forall|k: int| 0 <= k < t.len() implies t[k] != '}' by {
                    if k > 0 {
                        assert(t[k] == s[k - 1]);
                    }
                }
            },
        }
    }
}

/// What expanding a template against a binding table yields: the resolved
/// text, or the name of the first placeholder that has no binding.
///
/// Scanning left to right: a `{` opens a placeholder reference running to the
/// first `}`; the name between the braces is replaced by its bound value, and
/// a name with no binding is the error. A `{` with no `}` anywhere after it
/// makes the rest of the template ordinary text.
pub open spec fn expand_spec(t: Seq<char>, m: Map<Seq<char>, Seq<char>>) -> Result<
    Seq<char>,
    Seq<char>,
>
    decreases t.len(),
    via expand_spec_dec
{
    if t.len() == 0 {
        Result::Ok(Seq::empty())
    } else if t[0] == '{' {
        match find_close(t.skip(1)) {
            Option::None => Result::Ok(t),
            Option::Some(j) => {
                let name = t.subrange(1, 1 + j);
                if m.dom().contains(name) {
                    match expand_spec(t.skip(2 + j), m) {
                        Result::Ok(rest) => Result::Ok(m[name] + rest),
                        Result::Err(p) => Result::Err(p),
                    }
                } else {
                    Result::Err(name)
                }
            },
        }
    } else {
        match expand_spec(t.skip(1), m) {
            Result::Ok(rest) => Result::Ok(seq![t[0]] + rest),
            Result::Err(p) => Result::Err(p),
        }
    }
}

#[via_fn]
proof fn expand_spec_dec(t: Seq<char>, m: Map<Seq<char>, Seq<char>>) {
    if t.len() != 0 && t[0] == '{' {
        lemma_find_close(t.skip(1));
    }
}

/// What expanding a list of templates yields: all resolved, in order, or the
/// first missing placeholder. One invalid template fails the whole list.
pub open spec fn expand_all(ts: Seq<Seq<char>>, m: Map<Seq<char>, Seq<char>>) -> Result<
    Seq<Seq<char>>,
    Seq<char>,
>
    decreases ts.len(),
{
    if ts.len() == 0 {
        Result::Ok(Seq::empty())
    } else {
        match expand_all(ts.drop_last(), m) {
            Result::Ok(rs) => match expand_spec(ts.last(), m) {
                Result::Ok(r) => Result::Ok(rs.push(r)),
                Result::Err(p) => Result::Err(p),
            },
            Result::Err(p) => Result::Err(p),
        }
    }
}

/// Once one template of a list fails, the whole list fails with that
/// template's missing placeholder, provided everything before it succeeded.
proof fn lemma_expand_all_err(ts: Seq<Seq<char>>, m: Map<Seq<char>, Seq<char>>, k: int)
    requires
        0 <= k < ts.len(),
        expand_all(ts.subrange(0, k), m) is Ok,
        expand_spec(ts[k], m) is Err,
    ensures
        expand_all(ts, m) == Result::<Seq<Seq<char>>, Seq<char>>::Err(
            expand_spec(ts[k], m)->Err_0,
        ),
    decreases ts.len(),
{
    if ts.len() == k + 1 {
        assert(ts.drop_last() =~= ts.subrange(0, k));
        assert(ts.last() == ts[k]);
    } else {
        assert(ts.drop_last().subrange(0, k) =~= ts.subrange(0, k));
        assert(ts.drop_last()[k] == ts[k]);
        lemma_expand_all_err(ts.drop_last(), m, k);
    }
}

/// A name bound by no entry of a list is not in its table.
pub proof fn lemma_binding_map_absent(entries: Seq<(Seq<char>, Seq<char>)>, name: Seq<char>)
    requires
        forall|j: int| 0 <= j < entries.len() ==> entries[j].0 != name,
    ensures
        !binding_map(entries).dom().contains(name),
    decreases entries.len(),
{
    if entries.len() > 0 {
        lemma_binding_map_absent(entries.drop_last(), name);
    }
}

/// The table of two binding lists in a row: the later list's bindings win.
pub proof fn lemma_binding_map_concat(
    a: Seq<(Seq<char>, Seq<char>)>,
    b: Seq<(Seq<char>, Seq<char>)>,
)
    ensures
        binding_map(a + b) == binding_map(a).union_prefer_right(binding_map(b)),
    decreases b.len(),
{
    if b.len() == 0 {
        assert(a + b =~= a);
        assert(binding_map(a).union_prefer_right(binding_map(b)) =~= binding_map(a));
    } else {
        lemma_binding_map_concat(a, b.drop_last());
        assert((a + b).drop_last() =~= a + b.drop_last());
        assert((a + b).last() == b.last());
        assert(binding_map(a).union_prefer_right(binding_map(b.drop_last())).insert(
            b.last().0,
            b.last().1,
        ) =~= binding_map(a).union_prefer_right(binding_map(b)));
    }
}

/// Helper for reasoning about one whole placeholder reference: in
/// `name + "}"` with a brace-free `name`, the first `}` is the final one.
proof fn lemma_find_close_after_name(name: Seq<char>)
    requires
        forall|k: int| 0 <= k < name.len() ==> name[k] != '}',
    ensures
        find_close(name + seq!['}']) == Option::Some(name.len() as int),
    decreases name.len(),
{
    let t = name + seq!['}'];
    if name.len() == 0 {
        assert(t[0] == '}');
    } else {
        assert(t[0] == name[0]);
        assert(forall|k: int| 0 <= k < name.skip(1).len() ==> name.skip(1)[k] == name[k + 1]);
        lemma_find_close_after_name(name.skip(1));
        assert(t.skip(1) =~= name.skip(1) + seq!['}']);
    }
}

/// Expanding a template that is exactly one placeholder reference yields the
/// bound value, and fails naming the placeholder when it has no binding.
pub proof fn lemma_expand_single(name: Seq<char>, m: Map<Seq<char>, Seq<char>>)
    requires
        forall|k: int| 0 <= k < name.len() ==> name[k] != '}',
    ensures
        m.dom().contains(name) ==> expand_spec(seq!['{'] + name + seq!['}'], m) == Result::<
            Seq<char>,
            Seq<char>,
        >::Ok(m[name]),
        !m.dom().contains(name) ==> expand_spec(seq!['{'] + name + seq!['}'], m) == Result::<
            Seq<char>,
            Seq<char>,
        >::Err(name),
{
    let t = seq!['{'] + name + seq!['}'];
    assert(t[0] == '{');
    assert(t.skip(1) =~= name + seq!['}']);
    lemma_find_close_after_name(name);
    assert(t.subrange(1, 1 + name.len() as int) =~= name);
    assert(t.skip(2 + name.len() as int) =~= Seq::<char>::empty());
    assert(expand_spec(Seq::<char>::empty(), m) == Result::<Seq<char>, Seq<char>>::Ok(
        Seq::<char>::empty(),
    ));
    if m.dom().contains(name) {
        assert(m[name] + Seq::<char>::empty() =~= m[name]);
    }
}

/// A registered set of placeholder bindings, with pure lookup and expansion.
#[derive(Debug, Clone)]
pub struct Expander {
    pub bindings: Vec<Binding>,
}

impl View for Expander {
    type V = Map<Seq<char>, Seq<char>>;

    open spec fn view(&self) -> Map<Seq<char>, Seq<char>> {
        binding_map(entries_view(self.bindings@))
    }
}

/// Index of the first `}` at or after `start`, if any.
fn find_close_from(template: &str, start: usize) -> (r: Option<usize>)
    requires
        start <= template@.len(),
    ensures
        match r {
            Option::Some(j) => start <= j < template@.len() && find_close(
                template@.skip(start as int),
            ) == Option::Some((j - start) as int),
            Option::None => find_close(template@.skip(start as int)) is None,
        },
    decreases template@.len() - start,
{
    let n = template.unicode_len();
    if start == n {
        proof {
            assert(template@.skip(start as int) =~= Seq::<char>::empty());
        }
        None
    } else {
        let c = template.get_char(start);
        proof {
            assert(template@.skip(start as int)[0] == template@[start as int]);
        }
        if c == '}' {
            Some(start)
        } else {
            let r = find_close_from(template, start + 1);
            proof {
                assert(template@.skip(start as int).skip(1) =~= template@.skip(start as int + 1));
            }
            r
        }
    }
}

impl Expander {
    /// Looks a placeholder name up among the first `n` bindings; the latest
    /// binding wins, matching `binding_map` of that prefix.
    fn lookup_upto<'a>(&'a self, n: usize, name: &String) -> (r: Option<&'a String>)
        requires
            n <= self.bindings@.len(),
        ensures
            match r {
                Option::Some(v) => {
                    &&& binding_map(
                        entries_view(self.bindings@.subrange(0, n as int)),
                    ).dom().contains(name@)
                    &&& v@ == binding_map(entries_view(self.bindings@.subrange(0, n as int)))[name@]
                },
                Option::None => !binding_map(
                    entries_view(self.bindings@.subrange(0, n as int)),
                ).dom().contains(name@),
            },
        decreases n,
    {
        if n == 0 {
            proof {
                assert(entries_view(self.bindings@.subrange(0, 0)) =~= Seq::<
                    (Seq<char>, Seq<char>),
                >::empty());
            }
            None
        } else {
            let b = &self.bindings[n - 1];
            proof {
                let pre = entries_view(self.bindings@.subrange(0, n as int));
                assert(pre.last() == (b.name@, b.value@));
                assert(pre.drop_last() =~= entries_view(self.bindings@.subrange(0, n as int - 1)));
            }
            if b.name == *name {
                Some(&b.value)
            } else {
                self.lookup_upto(n - 1, name)
            }
        }
    }

    /// Looks a placeholder name up in the whole table.
    fn lookup<'a>(&'a self, name: &String) -> (r: Option<&'a String>)
        ensures
            match r {
                Option::Some(v) => self@.dom().contains(name@) && v@ == self@[name@],
                Option::None => !self@.dom().contains(name@),
            },
    {
        proof {
            assert(self.bindings@.subrange(0, self.bindings@.len() as int) =~= self.bindings@);
        }
        self.lookup_upto(self.bindings.len(), name)
    }

    /// Expands the suffix of `template` that starts at character `i`.
    fn eval_suffix(&self, template: &str, i: usize) -> (r: Result<String, ExpandError>)
        requires
            i <= template@.len(),
        ensures
            match (r, expand_spec(template@.skip(i as int), self@)) {
                (Result::Ok(out), Result::Ok(s)) => out@ == s,
                (Result::Err(e), Result::Err(p)) => e.placeholder@ == p,
                _ => false,
            },
        decreases template@.len() - i,
    {
        let n = template.unicode_len();
        let ghost t = template@.skip(i as int);
        if i == n {
            proof {
                assert(t =~= Seq::<char>::empty());
            }
            Ok(String::new())
        } else {
            let c = template.get_char(i);
            proof {
                assert(t[0] == template@[i as int]);
            }
            if c == '{' {
                proof {
                    assert(t.skip(1) =~= template@.skip(i as int + 1));
                }
                match find_close_from(template, i + 1) {
                    None => {
                        let rest = template.substring_char(i, n);
                        proof {
                            assert(rest@ =~= t);
                        }
                        Ok(String::from_str(rest))
                    },
                    Some(j) => {
                        let name_slice = template.substring_char(i + 1, j);
                        proof {
                            assert(name_slice@ =~= t.subrange(1, (j - i) as int));
                        }
                        let name = String::from_str(name_slice);
                        match self.lookup(&name) {
                            Some(value) => {
                                proof {
                                    assert(t.skip(2 + (j - i - 1)) =~= template@.skip(
                                        j as int + 1,
                                    ));
                                }
                                match self.eval_suffix(template, j + 1) {
                                    Ok(rest) => {
                                        let mut out = value.clone();
                                        out.append(rest.as_str());
                                        Ok(out)
                                    },
                                    Err(e) => Err(e),
                                }
                            },
                            None => Err(ExpandError { placeholder: name }),
                        }
                    },
                }
            } else {
                proof {
                    assert(t.skip(1) =~= template@.skip(i as int + 1));
                }
                match self.eval_suffix(template, i + 1) {
                    Ok(rest) => {
                        let piece = template.substring_char(i, i + 1);
                        let mut out = String::from_str(piece);
                        out.append(rest.as_str());
                        proof {
                            assert(piece@ =~= seq![t[0]]);
                        }
                        Ok(out)
                    },
                    Err(e) => Err(e),
                }
            }
        }
    }

    /// Expands one template. The result is the fully resolved string, or an
    /// error naming the first placeholder that has no binding.
    pub fn evaluate_value(&self, template: &str) -> (r: Result<String, ExpandError>)
        ensures
            match (r, expand_spec(template@, self@)) {
                (Result::Ok(out), Result::Ok(s)) => out@ == s,
                (Result::Err(e), Result::Err(p)) => e.placeholder@ == p,
                _ => false,
            },
    {
        proof {
            assert(template@.skip(0) =~= template@);
        }
        self.eval_suffix(template, 0)
    }

    /// Expands a list of templates as a sequence, preserving order; the
    /// first missing placeholder fails the whole list.
    pub fn evaluate(&self, templates: &Vec<String>) -> (r: Result<Vec<String>, ExpandError>)
        ensures
            match (r, expand_all(templates.deep_view(), self@)) {
                (Result::Ok(out), Result::Ok(s)) => out.deep_view() == s,
                (Result::Err(e), Result::Err(p)) => e.placeholder@ == p,
                _ => false,
            },
    {
        let ghost ts = templates.deep_view();
        let mut out: Vec<String> = Vec::new();
        proof {
            assert(ts.subrange(0, 0) =~= Seq::<Seq<char>>::empty());
            assert(out.deep_view() =~= Seq::<Seq<char>>::empty());
        }
        let n = templates.len();
        for i in 0..n
            invariant
                n == templates@.len(),
                ts == templates.deep_view(),
                out@.len() == i,
                expand_all(ts.subrange(0, i as int), self@) == Result::<
                    Seq<Seq<char>>,
                    Seq<char>,
                >::Ok(out.deep_view()),
        {
            proof {
                assert(ts[i as int] == templates@[i as int]@);
            }
            match self.evaluate_value(templates[i].as_str()) {
                Ok(s) => {
                    out.push(s);
                    proof {
                        assert(ts.subrange(0, i + 1).drop_last() =~= ts.subrange(0, i as int));
                        assert(ts.subrange(0, i + 1).last() == ts[i as int]);
                        assert(out.deep_view() =~= expand_all(ts.subrange(0, i + 1), self@)->Ok_0);
                    }
                },
                Err(e) => {
                    proof {
                        lemma_expand_all_err(ts, self@, i as int);
                    }
                    return Err(e);
                },
            }
        }
        proof {
            assert(ts.subrange(0, n as int) =~= ts);
        }
        Ok(out)
    }
}

} // verus!
