use vstd::prelude::*;

verus! {

/// A stylesheet class as style resolution sees it: its name and the kind of
/// each of its rules, in order. A rule's kind is its variant, numbered; the
/// rule's value does not take part in resolution.
#[derive(Debug)]
pub struct ClassRules {
    pub name: String,
    pub kinds: Vec<u8>,
}

/// Where a computed rule comes from: its kind, the index of its class in the
/// stylesheet and its index within that class.
#[derive(Clone, Copy, Debug, PartialEq, Eq, Structural)]
pub struct RuleSource {
    pub kind: u8,
    pub class: usize,
    pub rule: usize,
}

/// The index of the first class of `sheet` named `name`, if any.
pub open spec fn first_class(sheet: Seq<ClassRules>, name: Seq<char>) -> Option<int> {
    if exists|i: int| 0 <= i < sheet.len() && sheet[i].name@ == name {
        Some(
            choose|i: int|
                0 <= i < sheet.len() && sheet[i].name@ == name && forall|j: int|
                    0 <= j < i ==> sheet[j].name@ != name,
        )
    } else {
        None
    }
}

/// The rules of class `c` of `sheet`, in order.
pub open spec fn class_sources(sheet: Seq<ClassRules>, c: int) -> Seq<RuleSource> {
    Seq::new(
        sheet[c].kinds@.len(),
        |j: int| RuleSource { kind: sheet[c].kinds@[j], class: c as usize, rule: j as usize },
    )
}

/// The rules the classes named in `classes` bring, in order; a name that no
/// class of the stylesheet has brings none.
pub open spec fn brought(sheet: Seq<ClassRules>, classes: Seq<String>) -> Seq<RuleSource>
    decreases classes.len(),
{
    if classes.len() == 0 {
        Seq::empty()
    } else {
        brought(sheet, classes.drop_last()) + match first_class(sheet, classes.last()@) {
            Some(c) => class_sources(sheet, c),
            None => Seq::empty(),
        }
    }
}

/// `s` without the rules of kind `k`.
pub open spec fn without_kind(s: Seq<RuleSource>, k: u8) -> Seq<RuleSource>
    decreases s.len(),
{
    if s.len() == 0 {
        s
    } else if s.last().kind == k {
        without_kind(s.drop_last(), k)
    } else {
        without_kind(s.drop_last(), k).push(s.last())
    }
}

/// Each rule in turn replaces the earlier rule of its kind, and goes last.
pub open spec fn resolved(s: Seq<RuleSource>) -> Seq<RuleSource>
    decreases s.len(),
{
    if s.len() == 0 {
        s
    } else {
        without_kind(resolved(s.drop_last()), s.last().kind).push(s.last())
    }
}

/// The computed style of a widget with the given classes: its rules, one per
/// kind, each from the last class and the last rule that sets that kind.
pub open spec fn computed(sheet: Seq<ClassRules>, classes: Seq<String>) -> Seq<RuleSource> {
    resolved(brought(sheet, classes))
}

proof fn lemma_first_class(sheet: Seq<ClassRules>, name: Seq<char>, i: int)
    requires
        0 <= i < sheet.len(),
        sheet[i].name@ == name,
        forall|j: int| 0 <= j < i ==> sheet[j].name@ != name,
    ensures
        first_class(sheet, name) == Some(i),
{
    let k = choose|k: int|
        0 <= k < sheet.len() && sheet[k].name@ == name && forall|j: int|
            0 <= j < k ==> sheet[j].name@ != name;
    if k < i {
        assert(sheet[k].name@ != name);
    }
    if k > i {
        assert(sheet[i].name@ != name);
    }
}

/// Finds the first class of `sheet` named `name`.
pub fn find_class(sheet: &Vec<ClassRules>, name: &String) -> (r: Option<usize>)
    ensures
        match r {
            Some(i) => i < sheet@.len() && sheet@[i as int].name@ == name@ && first_class(
                sheet@,
                name@,
            ) == Some(i as int),
            None => first_class(sheet@, name@) is None,
        },
{
    let mut i: usize = 0;
    while i < sheet.len()
        invariant
            i <= sheet@.len(),
            forall|j: int| 0 <= j < i ==> sheet@[j].name@ != name@,
        decreases sheet@.len() - i,
    {
        if sheet[i].name == *name {
            proof {
                lemma_first_class(sheet@, name@, i as int);
            }
            return Some(i);
        }
        i = i + 1;
    }
    None
}

/// Removes from `rules` those of kind `kind`.
fn drop_kind(rules: Vec<RuleSource>, kind: u8) -> (r: Vec<RuleSource>)
    ensures
        r@ == without_kind(rules@, kind),
{
    let mut out: Vec<RuleSource> = Vec::new();
    let mut i: usize = 0;
    while i < rules.len()
        invariant
            i <= rules@.len(),
            out@ == without_kind(rules@.take(i as int), kind),
        decreases rules@.len() - i,
    {
        proof {
            assert(rules@.take(i + 1).drop_last() =~= rules@.take(i as int));
        }
        let r = rules[i];
        if r.kind != kind {
            out.push(r);
        }
        i = i + 1;
    }
    proof {
        assert(rules@.take(rules@.len() as int) =~= rules@);
    }
    out
}

/// Adds the rules of class `c`, in order, to `rules`, which resolve `events`.
fn add_class_rules(
    rules: Vec<RuleSource>,
    Ghost(events): Ghost<Seq<RuleSource>>,
    sheet: &Vec<ClassRules>,
    c: usize,
) -> (r: Vec<RuleSource>)
    requires
        c < sheet@.len(),
        rules@ == resolved(events),
    ensures
        r@ == resolved(events + class_sources(sheet@, c as int)),
{
    let class = &sheet[c];
    let ghost added = class_sources(sheet@, c as int);
    let mut rules = rules;
    let mut j: usize = 0;
    while j < class.kinds.len()
        invariant
            c < sheet@.len(),
            *class == sheet@[c as int],
            added == class_sources(sheet@, c as int),
            j <= class.kinds@.len(),
            rules@ == resolved(events + added.take(j as int)),
        decreases class.kinds@.len() - j,
    {
        let source = RuleSource { kind: class.kinds[j], class: c, rule: j };
        proof {
            assert(added.take(j + 1) =~= added.take(j as int).push(source));
            assert((events + added.take(j + 1)).drop_last() =~= events + added.take(j as int));
            assert((events + added.take(j + 1)).last() == source);
        }
        rules = drop_kind(rules, source.kind);
        rules.push(source);
        j = j + 1;
    }
    proof {
        assert(added.take(class.kinds@.len() as int) =~= added);
    }
    rules
}

/// Resolves the style of a widget with the given classes: the rules of the
/// named classes in order, each replacing the earlier rule of its kind.
pub fn compute_style(sheet: &Vec<ClassRules>, classes: &Vec<String>) -> (r: Vec<RuleSource>)
    ensures
        r@ == computed(sheet@, classes@),
{
    let mut rules: Vec<RuleSource> = Vec::new();
    let mut i: usize = 0;
    while i < classes.len()
        invariant
            i <= classes@.len(),
            rules@ == resolved(brought(sheet@, classes@.take(i as int))),
        decreases classes@.len() - i,
    {
        let ghost before = brought(sheet@, classes@.take(i as int));
        proof {
            let t = classes@.take(i + 1);
            assert(t.drop_last() =~= classes@.take(i as int));
            assert(t.last() == classes@[i as int]);
        }
        match find_class(sheet, &classes[i]) {
            Some(c) => {
                rules = add_class_rules(rules, Ghost(before), sheet, c);
            },
            None => {
                proof {
                    assert(before + Seq::<RuleSource>::empty() =~= before);
                }
            },
        }
        i = i + 1;
    }
    proof {
        assert(classes@.take(classes@.len() as int) =~= classes@);
    }
    rules
}

/// No two rules of `s` share a kind.
pub open spec fn kinds_distinct(s: Seq<RuleSource>) -> bool {
    forall|i: int, j: int| 0 <= i < j < s.len() ==> s[i].kind != s[j].kind
}

proof fn lemma_without_kind(s: Seq<RuleSource>, k: u8)
    ensures
        forall|i: int| 0 <= i < without_kind(s, k).len() ==> without_kind(s, k)[i].kind != k,
        forall|i: int|
            0 <= i < without_kind(s, k).len() ==> s.contains(#[trigger] without_kind(s, k)[i]),
        kinds_distinct(s) ==> kinds_distinct(without_kind(s, k)),
    decreases s.len(),
{
    if s.len() > 0 {
        let d = s.drop_last();
        lemma_without_kind(d, k);
        let w = without_kind(d, k);
        assert forall|i: int| 0 <= i < w.len() implies s.contains(w[i]) by {
            let m = choose|m: int| 0 <= m < d.len() && d[m] == w[i];
            assert(s[m] == w[i]);
        }
        if s.last().kind != k {
            let r = w.push(s.last());
            assert(s.contains(s.last())) by {
                assert(s[s.len() - 1] == s.last());
            }
            if kinds_distinct(s) {
                assert forall|i: int, j: int| 0 <= i < j < r.len() implies r[i].kind != r[j].kind by {
                    if j == r.len() - 1 {
                        let m = choose|m: int| 0 <= m < d.len() && d[m] == w[i];
                        assert(s[m] == d[m]);
                    }
                }
            }
        }
    }
}

/// A computed style holds at most one rule of each kind, and ends with the last
/// rule the classes bring.
pub proof fn lemma_computed_one_per_kind(s: Seq<RuleSource>)
    ensures
        kinds_distinct(resolved(s)),
        s.len() > 0 ==> resolved(s).last() == s.last(),
    decreases s.len(),
{
    if s.len() > 0 {
        let d = s.drop_last();
        lemma_computed_one_per_kind(d);
        lemma_without_kind(resolved(d), s.last().kind);
    }
}

} // verus!
