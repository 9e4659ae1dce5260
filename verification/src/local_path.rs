//! Paths of the machine, as the machine itself reads them: their order, what stands below
//! them, and how they are joined. On some machines a path starts with a prefix, such as that
//! of a drive, and more than one character separates its names.

use crate::order::{text_total, text_transitive};
use crate::paths::{names_of, path_names};
use crate::text::{cat2, not_after, same, text_at_most, text_order_is_antisymmetric};
use vstd::prelude::*;

verus! {

/// A step of a path. What a prefix holds tells it from the others, whatever its spelling.
#[derive(Clone, Debug, PartialEq, Eq)]
pub enum PathStep {
    Prefix(String),
    Root,
    Current,
    Parent,
    Name(String),
}

#[verifier::ext_equal]
pub enum PathStepView {
    Prefix(Seq<char>),
    Root,
    Current,
    Parent,
    Name(Seq<char>),
}

impl DeepView for PathStep {
    type V = PathStepView;

    open spec fn deep_view(&self) -> PathStepView {
        match self {
            PathStep::Prefix(prefix) => PathStepView::Prefix(prefix@),
            PathStep::Root => PathStepView::Root,
            PathStep::Current => PathStepView::Current,
            PathStep::Parent => PathStepView::Parent,
            PathStep::Name(name) => PathStepView::Name(name@),
        }
    }
}

impl PathStep {
    fn duplicate(&self) -> (copy: Self)
        ensures
            copy.deep_view() == self.deep_view(),
    {
        match self {
            PathStep::Prefix(prefix) => PathStep::Prefix(prefix.clone()),
            PathStep::Root => PathStep::Root,
            PathStep::Current => PathStep::Current,
            PathStep::Parent => PathStep::Parent,
            PathStep::Name(name) => PathStep::Name(name.clone()),
        }
    }

    fn is_name(&self, name: &str) -> (result: bool)
        ensures
            result == (self.deep_view() == PathStepView::Name(name@)),
    {
        match self {
            PathStep::Name(own) => same(own.as_str(), name),
            _ => false,
        }
    }
}

/// A path: its text, the text of its prefix where it has one, the character that separates
/// names on its machine, whether the machine takes it to the letter, whether it is absolute,
/// and its steps.
#[derive(Clone, Debug, PartialEq, Eq)]
pub struct LocalPath {
    pub text: String,
    pub drive: String,
    pub separator: char,
    pub is_verbatim: bool,
    pub is_absolute: bool,
    pub steps: Vec<PathStep>,
}

#[verifier::ext_equal]
pub struct LocalPathView {
    pub text: Seq<char>,
    pub drive: Seq<char>,
    pub separator: char,
    pub is_verbatim: bool,
    pub is_absolute: bool,
    pub steps: Seq<PathStepView>,
}

impl DeepView for LocalPath {
    type V = LocalPathView;

    open spec fn deep_view(&self) -> LocalPathView {
        LocalPathView {
            text: self.text@,
            drive: self.drive@,
            separator: self.separator,
            is_verbatim: self.is_verbatim,
            is_absolute: self.is_absolute,
            steps: self.steps.deep_view(),
        }
    }
}

fn add_steps(steps: &mut Vec<PathStep>, more: &Vec<PathStep>, start: usize)
    requires
        start <= more@.len(),
    ensures
        final(steps).deep_view() == old(steps).deep_view() + more.deep_view().skip(start as int),
{
    let ghost front = steps.deep_view();
    let ghost all = more.deep_view().skip(start as int);
    let mut i: usize = start;
    assert(front + all.take(0) == front);
    while i < more.len()
        invariant
            start <= i <= more.len(),
            all == more.deep_view().skip(start as int),
            steps.deep_view() == front + all.take(i - start),
        decreases more.len() - i,
    {
        let ghost before = steps.deep_view();
        let step = more[i].duplicate();
        assert(all[i - start] == more@[i as int].deep_view());
        steps.push(step);
        assert(steps.deep_view() == before.push(all[i - start]));
        assert(all.take(i + 1 - start) == all.take(i - start).push(all[i - start]));
        i += 1;
    }
    assert(all.take(i - start) == all);
}

impl LocalPath {
    pub fn duplicate(&self) -> (copy: Self)
        ensures
            copy.deep_view() == self.deep_view(),
    {
        let mut steps: Vec<PathStep> = Vec::new();
        assert(steps.deep_view() == Seq::<PathStepView>::empty());
        add_steps(&mut steps, &self.steps, 0);
        assert(steps.deep_view() == self.steps.deep_view());
        LocalPath {
            text: self.text.clone(),
            drive: self.drive.clone(),
            separator: self.separator,
            is_verbatim: self.is_verbatim,
            is_absolute: self.is_absolute,
            steps,
        }
    }
}

/// The path of one name.
pub open spec fn named_path(name: Seq<char>) -> LocalPathView {
    LocalPathView {
        text: name,
        drive: Seq::empty(),
        separator: '/',
        is_verbatim: false,
        is_absolute: false,
        steps: seq![PathStepView::Name(name)],
    }
}

pub(crate) fn named(name: &str) -> (path: LocalPath)
    ensures
        path.deep_view() == named_path(name@),
{
    let mut steps: Vec<PathStep> = Vec::new();
    steps.push(PathStep::Name(name.to_owned()));
    let path = LocalPath {
        text: name.to_owned(),
        drive: String::new(),
        separator: '/',
        is_verbatim: false,
        is_absolute: false,
        steps,
    };
    assert(path.deep_view() == named_path(name@));
    path
}

/// The steps that lead to names, one below the other.
pub open spec fn name_steps(names: Seq<Seq<char>>) -> Seq<PathStepView> {
    names.map_values(|name: Seq<char>| PathStepView::Name(name))
}

/// A path below some directory, with slashes between its names.
pub open spec fn relative_path(text: Seq<char>) -> LocalPathView {
    LocalPathView { steps: name_steps(path_names(text)), ..named_path(text) }
}

pub(crate) fn relative(text: &str) -> (path: LocalPath)
    ensures
        path.deep_view() == relative_path(text@),
{
    let names = names_of(text);
    let ghost all = names.deep_view();
    let mut steps: Vec<PathStep> = Vec::new();
    let mut i: usize = 0;
    assert(steps.deep_view() == name_steps(all.take(0)));
    while i < names.len()
        invariant
            i <= names.len(),
            all == names.deep_view(),
            steps.deep_view() == name_steps(all.take(i as int)),
        decreases names.len() - i,
    {
        let ghost before = steps.deep_view();
        let step = PathStep::Name(names[i].clone());
        assert(step.deep_view() == PathStepView::Name(all[i as int]));
        steps.push(step);
        assert(steps.deep_view() == before.push(step.deep_view()));
        assert(all.take(i + 1) == all.take(i as int).push(all[i as int]));
        assert(name_steps(all.take(i + 1)) == name_steps(all.take(i as int)).push(
            PathStepView::Name(all[i as int]),
        ));
        i += 1;
    }
    assert(all.take(i as int) == all);
    LocalPath { steps, ..named(text) }
}

/// Where a step stands among the kinds of steps.
pub open spec fn step_rank(step: PathStepView) -> int {
    match step {
        PathStepView::Prefix(_) => 0,
        PathStepView::Root => 1,
        PathStepView::Current => 2,
        PathStepView::Parent => 3,
        PathStepView::Name(_) => 4,
    }
}

/// The order of steps: by their kind, then by what they hold.
pub open spec fn step_at_most(left: PathStepView, right: PathStepView) -> bool {
    match (left, right) {
        (PathStepView::Prefix(a), PathStepView::Prefix(b)) => text_at_most(a, b),
        (PathStepView::Name(a), PathStepView::Name(b)) => text_at_most(a, b),
        _ => step_rank(left) <= step_rank(right),
    }
}

/// The order of lists of steps: one that starts another comes first, otherwise the first
/// differing step decides.
pub open spec fn steps_at_most(left: Seq<PathStepView>, right: Seq<PathStepView>) -> bool
    decreases left.len(),
{
    if left.len() == 0 {
        true
    } else if right.len() == 0 {
        false
    } else if left[0] != right[0] {
        step_at_most(left[0], right[0])
    } else {
        steps_at_most(left.drop_first(), right.drop_first())
    }
}

/// The order of paths: step by step.
pub open spec fn path_at_most(left: LocalPathView, right: LocalPathView) -> bool {
    steps_at_most(left.steps, right.steps)
}

fn rank_of(step: &PathStep) -> (rank: u8)
    ensures
        rank == step_rank(step.deep_view()),
{
    match step {
        PathStep::Prefix(_) => 0,
        PathStep::Root => 1,
        PathStep::Current => 2,
        PathStep::Parent => 3,
        PathStep::Name(_) => 4,
    }
}

fn step_not_after(left: &PathStep, right: &PathStep) -> (result: bool)
    ensures
        result == step_at_most(left.deep_view(), right.deep_view()),
{
    match (left, right) {
        (PathStep::Prefix(a), PathStep::Prefix(b)) => not_after(a.as_str(), b.as_str()),
        (PathStep::Name(a), PathStep::Name(b)) => not_after(a.as_str(), b.as_str()),
        _ => rank_of(left) <= rank_of(right),
    }
}

fn same_step(left: &PathStep, right: &PathStep) -> (result: bool)
    ensures
        result == (left.deep_view() == right.deep_view()),
{
    match (left, right) {
        (PathStep::Prefix(a), PathStep::Prefix(b)) => same(a.as_str(), b.as_str()),
        (PathStep::Name(a), PathStep::Name(b)) => same(a.as_str(), b.as_str()),
        _ => rank_of(left) == rank_of(right),
    }
}

pub(crate) fn path_not_after(left: &LocalPath, right: &LocalPath) -> (result: bool)
    ensures
        result == path_at_most(left.deep_view(), right.deep_view()),
{
    let ghost a = left.steps.deep_view();
    let ghost b = right.steps.deep_view();
    let mut i: usize = 0;
    assert(a.skip(0) == a);
    assert(b.skip(0) == b);
    while i < left.steps.len() && i < right.steps.len()
        invariant
            i <= left.steps.len(),
            i <= right.steps.len(),
            a == left.steps.deep_view(),
            b == right.steps.deep_view(),
            steps_at_most(a, b) == steps_at_most(a.skip(i as int), b.skip(i as int)),
        decreases left.steps.len() - i,
    {
        assert(a.skip(i as int)[0] == left.steps@[i as int].deep_view());
        assert(b.skip(i as int)[0] == right.steps@[i as int].deep_view());
        if !same_step(&left.steps[i], &right.steps[i]) {
            return step_not_after(&left.steps[i], &right.steps[i]);
        }
        assert(a.skip(i as int).drop_first() == a.skip(i + 1));
        assert(b.skip(i as int).drop_first() == b.skip(i + 1));
        i += 1;
    }
    i == left.steps.len()
}

proof fn steps_are_ordered(a: PathStepView, b: PathStepView, c: PathStepView)
    ensures
        step_at_most(a, b) || step_at_most(b, a),
        step_at_most(a, b) && step_at_most(b, a) ==> a == b,
        step_at_most(a, b) && step_at_most(b, c) ==> step_at_most(a, c),
{
    let x = match a {
        PathStepView::Prefix(held) => held,
        PathStepView::Name(held) => held,
        _ => Seq::empty(),
    };
    let y = match b {
        PathStepView::Prefix(held) => held,
        PathStepView::Name(held) => held,
        _ => Seq::empty(),
    };
    let z = match c {
        PathStepView::Prefix(held) => held,
        PathStepView::Name(held) => held,
        _ => Seq::empty(),
    };
    text_total(x, y);
    if text_at_most(x, y) && text_at_most(y, x) {
        text_order_is_antisymmetric(x, y);
    }
    if text_at_most(x, y) && text_at_most(y, z) {
        text_transitive(x, y, z);
    }
}

proof fn step_lists_are_total(left: Seq<PathStepView>, right: Seq<PathStepView>)
    ensures
        steps_at_most(left, right) || steps_at_most(right, left),
    decreases left.len(),
{
    if left.len() > 0 && right.len() > 0 {
        steps_are_ordered(left[0], right[0], right[0]);
        if left[0] == right[0] {
            step_lists_are_total(left.drop_first(), right.drop_first());
        }
    }
}

proof fn step_lists_are_transitive(
    a: Seq<PathStepView>,
    b: Seq<PathStepView>,
    c: Seq<PathStepView>,
)
    requires
        steps_at_most(a, b),
        steps_at_most(b, c),
    ensures
        steps_at_most(a, c),
    decreases a.len(),
{
    if a.len() > 0 && b.len() > 0 && c.len() > 0 {
        steps_are_ordered(a[0], b[0], c[0]);
        if a[0] == b[0] && b[0] == c[0] {
            step_lists_are_transitive(a.drop_first(), b.drop_first(), c.drop_first());
        }
    }
}

/// Any two paths can be compared.
pub proof fn path_order_is_total(left: LocalPathView, right: LocalPathView)
    ensures
        path_at_most(left, right) || path_at_most(right, left),
{
    step_lists_are_total(left.steps, right.steps);
}

/// The order of paths is transitive.
pub proof fn path_order_is_transitive(a: LocalPathView, b: LocalPathView, c: LocalPathView)
    requires
        path_at_most(a, b),
        path_at_most(b, c),
    ensures
        path_at_most(a, c),
{
    step_lists_are_transitive(a.steps, b.steps, c.steps);
}

/// The path stands at or below the base.
pub open spec fn is_within(path: LocalPathView, base: LocalPathView) -> bool {
    base.steps.is_prefix_of(path.steps)
}

#[verifier::loop_isolation(false)]
pub(crate) fn within(path: &LocalPath, base: &LocalPath) -> (result: bool)
    ensures
        result == is_within(path.deep_view(), base.deep_view()),
{
    let ghost all = path.steps.deep_view();
    let ghost front = base.steps.deep_view();
    if base.steps.len() > path.steps.len() {
        return false;
    }
    let mut i: usize = 0;
    while i < base.steps.len()
        invariant
            i <= base.steps.len() <= path.steps.len(),
            forall|k: int| 0 <= k < i ==> front[k] == all[k],
        decreases base.steps.len() - i,
    {
        assert(all[i as int] == path.steps@[i as int].deep_view());
        assert(front[i as int] == base.steps@[i as int].deep_view());
        if !same_step(&base.steps[i], &path.steps[i]) {
            assert(front[i as int] != all.subrange(0, front.len() as int)[i as int]);
            return false;
        }
        i += 1;
    }
    assert(front == all.subrange(0, front.len() as int));
    true
}

/// The path ends in these names, below a name.
pub open spec fn ends_below_a_name(path: LocalPathView, names: Seq<Seq<char>>) -> bool {
    &&& path.steps.len() > names.len()
    &&& path.steps.skip(path.steps.len() - names.len()) == name_steps(names)
    &&& path.steps[path.steps.len() - names.len() - 1] is Name
}

pub(crate) fn ends_in_three_names(path: &LocalPath, first: &str, second: &str, third: &str) -> (result:
    bool)
    ensures
        result == ends_below_a_name(path.deep_view(), seq![first@, second@, third@]),
{
    let steps = &path.steps;
    let ghost all = steps.deep_view();
    let ghost wanted = name_steps(seq![first@, second@, third@]);
    let len: usize = steps.len();
    if len < 4 {
        return false;
    }
    assert(all[len - 4] == steps@[len - 4].deep_view());
    assert(all[len - 3] == steps@[len - 3].deep_view());
    assert(all[len - 2] == steps@[len - 2].deep_view());
    assert(all[len - 1] == steps@[len - 1].deep_view());
    let below = match &steps[len - 4] {
        PathStep::Name(_) => true,
        _ => false,
    };
    let result = below && steps[len - 3].is_name(first) && steps[len - 2].is_name(second)
        && steps[len - 1].is_name(third);
    proof {
        let tail = all.skip(len - 3);
        assert(wanted[0] == PathStepView::Name(first@));
        assert(wanted[1] == PathStepView::Name(second@));
        assert(wanted[2] == PathStepView::Name(third@));
        assert(tail[0] == all[len - 3]);
        assert(tail[1] == all[len - 2]);
        assert(tail[2] == all[len - 1]);
        if result {
            assert(tail == wanted);
        }
    }
    result
}

/// The first step is a prefix.
pub open spec fn has_prefix(path: LocalPathView) -> bool {
    path.steps.len() > 0 && path.steps[0] is Prefix
}

/// The path starts at the root, on whatever drive.
pub open spec fn has_root_alone(path: LocalPathView) -> bool {
    path.steps.len() > 0 && path.steps[0] is Root
}

/// The path names a drive and nothing on it.
pub open spec fn is_bare_drive(path: LocalPathView) -> bool {
    path.steps.len() == 1 && path.steps[0] is Prefix && !path.is_verbatim
}

/// What stands between a path and a name that follows it: nothing behind a separator, a bare
/// drive or an empty path.
pub open spec fn separation(base: LocalPathView) -> Seq<char> {
    if base.text.len() == 0 || base.text.last() == '/' || base.text.last() == base.separator
        || is_bare_drive(base) {
        Seq::empty()
    } else {
        seq![base.separator]
    }
}

/// The steps of a path that is taken to the letter, with more steps behind them: a step to
/// the current directory is none, one to the parent takes a name back, and the root starts
/// again behind the prefix.
pub open spec fn verbatim_steps(steps: Seq<PathStepView>, more: Seq<PathStepView>) -> Seq<PathStepView>
    decreases more.len(),
{
    if more.len() == 0 {
        steps
    } else {
        let front = verbatim_steps(steps, more.drop_last());
        match more.last() {
            PathStepView::Current => front,
            PathStepView::Parent => if front.len() > 0 && front.last() is Name {
                front.drop_last()
            } else {
                front
            },
            PathStepView::Root => (if front.len() > 0 {
                front.take(1)
            } else {
                front
            }).push(PathStepView::Root),
            step => front.push(step),
        }
    }
}

/// What a step is called.
pub open spec fn step_text(step: PathStepView) -> Seq<char> {
    match step {
        PathStepView::Prefix(held) => held,
        PathStepView::Root => Seq::empty(),
        PathStepView::Current => "."@,
        PathStepView::Parent => ".."@,
        PathStepView::Name(name) => name,
    }
}

/// The text of steps behind a prefix that is written `drive`.
pub open spec fn steps_text(drive: Seq<char>, steps: Seq<PathStepView>, separator: char) -> Seq<char>
    decreases steps.len(),
{
    if steps.len() == 0 {
        Seq::empty()
    } else {
        let front = steps_text(drive, steps.drop_last(), separator);
        match steps.last() {
            PathStepView::Prefix(_) => front + drive,
            PathStepView::Root => front.push(separator),
            step => if steps.len() == 1 || steps[steps.len() - 2] is Root {
                front + step_text(step)
            } else {
                front.push(separator) + step_text(step)
            },
        }
    }
}

/// The path of what `more` names as seen from the base. An absolute path and one with a
/// prefix stand for themselves, one that starts at the root stays on the drive of the base,
/// and any other stands below the base.
pub open spec fn joined_path(base: LocalPathView, more: LocalPathView) -> LocalPathView {
    if more.is_absolute || has_prefix(more) {
        more
    } else if base.is_verbatim && more.text.len() > 0 {
        let steps = verbatim_steps(base.steps, more.steps);
        LocalPathView { text: steps_text(base.drive, steps, base.separator), steps, ..base }
    } else if has_root_alone(more) {
        LocalPathView {
            text: base.drive + more.text,
            steps: (if has_prefix(base) {
                base.steps.take(1)
            } else {
                Seq::empty()
            }) + more.steps,
            is_absolute: has_prefix(base),
            ..base
        }
    } else {
        LocalPathView {
            text: base.text + separation(base) + more.text,
            steps: base.steps + (if base.text.len() > 0 && !is_bare_drive(base)
                && more.steps.len() > 0 && more.steps[0] is Current {
                more.steps.drop_first()
            } else {
                more.steps
            }),
            ..base
        }
    }
}

fn starts_with_prefix(path: &LocalPath) -> (result: bool)
    ensures
        result == has_prefix(path.deep_view()),
{
    if path.steps.len() == 0 {
        return false;
    }
    assert(path.steps.deep_view()[0] == path.steps@[0].deep_view());
    match &path.steps[0] {
        PathStep::Prefix(_) => true,
        _ => false,
    }
}

fn starts_at_root(path: &LocalPath) -> (result: bool)
    ensures
        result == has_root_alone(path.deep_view()),
{
    if path.steps.len() == 0 {
        return false;
    }
    assert(path.steps.deep_view()[0] == path.steps@[0].deep_view());
    match &path.steps[0] {
        PathStep::Root => true,
        _ => false,
    }
}

fn starts_at_current(path: &LocalPath) -> (result: bool)
    ensures
        result == (path.deep_view().steps.len() > 0 && path.deep_view().steps[0] is Current),
{
    if path.steps.len() == 0 {
        return false;
    }
    assert(path.steps.deep_view()[0] == path.steps@[0].deep_view());
    match &path.steps[0] {
        PathStep::Current => true,
        _ => false,
    }
}

fn names_bare_drive(path: &LocalPath) -> (result: bool)
    ensures
        result == is_bare_drive(path.deep_view()),
{
    path.steps.len() == 1 && !path.is_verbatim && starts_with_prefix(path)
}

fn push_separation(text: &mut String, base: &LocalPath)
    ensures
        final(text)@ == old(text)@ + separation(base.deep_view()),
{
    let ghost start = text@;
    let len: usize = base.text.as_str().unicode_len();
    if len > 0 {
        let last = base.text.as_str().get_char(len - 1);
        if last != '/' && last != base.separator && !names_bare_drive(base) {
            text.push(base.separator);
            assert(text@ == start + seq![base.separator]);
            return;
        }
    }
    assert(start + Seq::<char>::empty() == start);
}

fn follow_verbatim(steps: &mut Vec<PathStep>, more: &Vec<PathStep>)
    ensures
        final(steps).deep_view() == verbatim_steps(old(steps).deep_view(), more.deep_view()),
{
    let ghost start = steps.deep_view();
    let ghost all = more.deep_view();
    let mut i: usize = 0;
    assert(all.take(0) == Seq::<PathStepView>::empty());
    while i < more.len()
        invariant
            i <= more.len(),
            all == more.deep_view(),
            steps.deep_view() == verbatim_steps(start, all.take(i as int)),
        decreases more.len() - i,
    {
        let ghost front = steps.deep_view();
        assert(all.take(i + 1).drop_last() == all.take(i as int));
        assert(all.take(i + 1).last() == more@[i as int].deep_view());
        match &more[i] {
            PathStep::Current => {},
            PathStep::Parent => {
                let len: usize = steps.len();
                if len > 0 {
                    assert(front.last() == steps@[len - 1].deep_view());
                    let takes_back = match &steps[len - 1] {
                        PathStep::Name(_) => true,
                        _ => false,
                    };
                    if takes_back {
                        let _ = steps.pop();
                        assert(steps.deep_view() == front.drop_last());
                    }
                }
            },
            PathStep::Root => {
                steps.truncate(1);
                let ghost kept = if front.len() > 0 {
                    front.take(1)
                } else {
                    front
                };
                assert(steps.deep_view() == kept);
                steps.push(PathStep::Root);
                assert(steps.deep_view() == kept.push(PathStepView::Root));
            },
            step => {
                let copy = step.duplicate();
                steps.push(copy);
                assert(steps.deep_view() == front.push(step.deep_view()));
            },
        }
        i += 1;
    }
    assert(all.take(i as int) == all);
}

fn write_steps(drive: &str, steps: &Vec<PathStep>, separator: char) -> (text: String)
    ensures
        text@ == steps_text(drive@, steps.deep_view(), separator),
{
    let ghost all = steps.deep_view();
    let mut text = String::new();
    let mut i: usize = 0;
    assert(all.take(0) == Seq::<PathStepView>::empty());
    while i < steps.len()
        invariant
            i <= steps.len(),
            all == steps.deep_view(),
            text@ == steps_text(drive@, all.take(i as int), separator),
        decreases steps.len() - i,
    {
        let ghost so_far = all.take(i + 1);
        assert(so_far.drop_last() == all.take(i as int));
        assert(so_far.last() == steps@[i as int].deep_view());
        match &steps[i] {
            PathStep::Prefix(_) => {
                text.append(drive);
            },
            PathStep::Root => {
                text.push(separator);
            },
            step => {
                if i > 0 {
                    assert(so_far[so_far.len() - 2] == steps@[i - 1].deep_view());
                    let behind_root = match &steps[i - 1] {
                        PathStep::Root => true,
                        _ => false,
                    };
                    if !behind_root {
                        text.push(separator);
                    }
                }
                match step {
                    PathStep::Name(name) => text.append(name.as_str()),
                    PathStep::Parent => text.append(".."),
                    _ => text.append("."),
                }
            },
        }
        i += 1;
    }
    assert(all.take(i as int) == all);
    text
}

pub(crate) fn join_path(base: &LocalPath, more: &LocalPath) -> (path: LocalPath)
    ensures
        path.deep_view() == joined_path(base.deep_view(), more.deep_view()),
{
    if more.is_absolute || starts_with_prefix(more) {
        return more.duplicate();
    }
    let mut path = base.duplicate();
    if base.is_verbatim && !more.text.as_str().is_empty() {
        let mut steps = path.steps;
        follow_verbatim(&mut steps, &more.steps);
        let text = write_steps(base.drive.as_str(), &steps, base.separator);
        return LocalPath {
            text,
            drive: path.drive,
            separator: path.separator,
            is_verbatim: path.is_verbatim,
            is_absolute: path.is_absolute,
            steps,
        };
    }
    if starts_at_root(more) {
        let on_drive = starts_with_prefix(base);
        let mut steps = path.steps;
        if on_drive {
            steps.truncate(1);
        } else {
            steps.truncate(0);
        }
        let ghost kept = if on_drive {
            base.steps.deep_view().take(1)
        } else {
            Seq::<PathStepView>::empty()
        };
        assert(steps.deep_view() == kept);
        add_steps(&mut steps, &more.steps, 0);
        assert(more.steps.deep_view().skip(0) == more.steps.deep_view());
        return LocalPath {
            text: cat2(base.drive.as_str(), more.text.as_str()),
            drive: path.drive,
            separator: path.separator,
            is_verbatim: path.is_verbatim,
            is_absolute: on_drive,
            steps,
        };
    }
    let start: usize = if !base.text.as_str().is_empty() && !names_bare_drive(base)
        && starts_at_current(more) {
        1
    } else {
        0
    };
    assert(more.steps.deep_view().skip(0) == more.steps.deep_view());
    assert(start == 1 ==> more.steps.deep_view().skip(1) == more.steps.deep_view().drop_first());
    add_steps(&mut path.steps, &more.steps, start);
    push_separation(&mut path.text, base);
    path.text.append(more.text.as_str());
    path
}

/// What is named below a path stands within it.
pub proof fn names_stay_within(base: LocalPathView, more: LocalPathView)
    requires
        !more.is_absolute,
        forall|k: int| 0 <= k < more.steps.len() ==> (#[trigger] more.steps[k]) is Name,
    ensures
        is_within(joined_path(base, more), base),
{
    verbatim_names_are_added(base.steps, more.steps);
    assert((base.steps + more.steps).subrange(0, base.steps.len() as int) == base.steps);
}

proof fn verbatim_names_are_added(steps: Seq<PathStepView>, more: Seq<PathStepView>)
    requires
        forall|k: int| 0 <= k < more.len() ==> (#[trigger] more[k]) is Name,
    ensures
        verbatim_steps(steps, more) == steps + more,
    decreases more.len(),
{
    if more.len() > 0 {
        let front = more.drop_last();
        assert forall|k: int| 0 <= k < front.len() implies (#[trigger] front[k]) is Name by {
            assert(more[k] is Name);
        }
        verbatim_names_are_added(steps, front);
        assert(more.last() is Name);
        assert((steps + front).push(more.last()) == steps + more);
    } else {
        assert(steps + more == steps);
    }
}

} // verus!
