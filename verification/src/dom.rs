use vstd::prelude::*;
use crate::text::{spec_has_word, spec_join, spec_trim, str_eq, str_has_word, push_trimmed};

verus! {

// ---------------------------------------------------------------------------
// The document model
// ---------------------------------------------------------------------------

/// One attribute of an element.
pub struct Attr {
    pub name: String,
    pub value: String,
}

/// An element of a parsed document: its tag name, its attributes in
/// document order, and its content as a sequence of child nodes.
pub struct Element {
    pub tag: String,
    pub attrs: Vec<Attr>,
    pub children: Vec<Node>,
}

/// A node is an element or a run of character data.
pub enum Node {
    El(Element),
    Txt(String),
}

// ---------------------------------------------------------------------------
// Attributes and classes
// ---------------------------------------------------------------------------

/// The value of the first attribute named `name` among `attrs[i..]`.
pub open spec fn spec_attr_from(attrs: Seq<Attr>, i: int, name: Seq<char>) -> Option<Seq<char>>
    decreases attrs.len() - i,
{
    if i < 0 || i >= attrs.len() {
        Option::None
    } else if attrs[i].name@ == name {
        Option::Some(attrs[i].value@)
    } else {
        spec_attr_from(attrs, i + 1, name)
    }
}

/// The value of the element's attribute `name`, if it has one.
pub open spec fn spec_attr(el: Element, name: Seq<char>) -> Option<Seq<char>> {
    spec_attr_from(el.attrs@, 0, name)
}

fn attr_from<'a>(attrs: &'a Vec<Attr>, i: usize, name: &str) -> (r: Option<&'a String>)
    requires
        i <= attrs@.len(),
    ensures
        match r {
            Option::Some(v) => spec_attr_from(attrs@, i as int, name@) == Option::Some(v@),
            Option::None => spec_attr_from(attrs@, i as int, name@) is None,
        },
    decreases attrs@.len() - i,
{
    if i == attrs.len() {
        None
    } else if str_eq(attrs[i].name.as_str(), name) {
        Some(&attrs[i].value)
    } else {
        attr_from(attrs, i + 1, name)
    }
}

/// The element's attribute `name`, if present.
pub fn get_attr<'a>(el: &'a Element, name: &str) -> (r: Option<&'a String>)
    ensures
        match r {
            Option::Some(v) => spec_attr(*el, name@) == Option::Some(v@),
            Option::None => spec_attr(*el, name@) is None,
        },
{
    attr_from(&el.attrs, 0, name)
}

/// The element's `class` attribute names `c` as one of its
/// whitespace-separated class names.
pub open spec fn spec_has_class(el: Element, c: Seq<char>) -> bool {
    match spec_attr(el, "class"@) {
        Option::Some(v) => spec_has_word(v, c),
        Option::None => false,
    }
}

pub fn has_class(el: &Element, c: &str) -> (r: bool)
    requires
        c@.len() > 0,
    ensures
        r == spec_has_class(*el, c@),
{
    match get_attr(el, "class") {
        Some(v) => str_has_word(v.as_str(), c),
        None => false,
    }
}

// ---------------------------------------------------------------------------
// Queries: what an element must look like to be selected
// ---------------------------------------------------------------------------

/// A conjunction of conditions on one element: a tag name and up to two
/// class names, each optional.
pub struct Query {
    pub tag: Option<String>,
    pub class: Option<String>,
    pub class2: Option<String>,
}

/// Mathematical image of a `Query`.
pub struct QueryV {
    pub tag: Option<Seq<char>>,
    pub class: Option<Seq<char>>,
    pub class2: Option<Seq<char>>,
}

pub open spec fn opt_str_view(o: Option<String>) -> Option<Seq<char>> {
    match o {
        Option::Some(s) => Option::Some(s@),
        Option::None => Option::None,
    }
}

impl View for Query {
    type V = QueryV;

    open spec fn view(&self) -> QueryV {
        QueryV {
            tag: opt_str_view(self.tag),
            class: opt_str_view(self.class),
            class2: opt_str_view(self.class2),
        }
    }
}

/// A query's class names must be non-empty words.
pub open spec fn query_wf(q: QueryV) -> bool {
    (q.class matches Option::Some(c) ==> c.len() > 0) && (q.class2 matches Option::Some(c)
        ==> c.len() > 0)
}

pub open spec fn spec_matches(el: Element, q: QueryV) -> bool {
    (q.tag matches Option::Some(t) ==> el.tag@ == t) && (q.class matches Option::Some(c)
        ==> spec_has_class(el, c)) && (q.class2 matches Option::Some(c) ==> spec_has_class(el, c))
}

pub fn matches(el: &Element, q: &Query) -> (r: bool)
    requires
        query_wf(q@),
    ensures
        r == spec_matches(*el, q@),
{
    let tag_ok = match &q.tag {
        Some(t) => str_eq(el.tag.as_str(), t.as_str()),
        None => true,
    };
    let class_ok = match &q.class {
        Some(c) => has_class(el, c.as_str()),
        None => true,
    };
    let class2_ok = match &q.class2 {
        Some(c) => has_class(el, c.as_str()),
        None => true,
    };
    tag_ok && class_ok && class2_ok
}

impl Query {
    /// Elements carrying the class `c`.
    pub fn by_class(c: &str) -> (r: Query)
        requires
            c@.len() > 0,
        ensures
            r@ == (QueryV { tag: Option::None, class: Option::Some(c@), class2: Option::None }),
            query_wf(r@),
    {
        Query { tag: None, class: Some(c.to_owned()), class2: None }
    }

    /// Elements with the tag name `t`.
    pub fn by_tag(t: &str) -> (r: Query)
        ensures
            r@ == (QueryV { tag: Option::Some(t@), class: Option::None, class2: Option::None }),
            query_wf(r@),
    {
        Query { tag: Some(t.to_owned()), class: None, class2: None }
    }

    /// Elements carrying both classes `c` and `d`.
    pub fn by_classes(c: &str, d: &str) -> (r: Query)
        requires
            c@.len() > 0,
            d@.len() > 0,
        ensures
            r@ == (QueryV { tag: Option::None, class: Option::Some(c@), class2: Option::Some(d@) }),
            query_wf(r@),
    {
        Query { tag: None, class: Some(c.to_owned()), class2: Some(d.to_owned()) }
    }
}

// ---------------------------------------------------------------------------
// First matching descendant
// ---------------------------------------------------------------------------

/// The first element in pre-order among the nodes `s[i..]` and their
/// descendants that satisfies `q`. A matching element is taken before its
/// own descendants are looked at.
pub open spec fn spec_find_in(s: Seq<Node>, i: int, q: QueryV) -> Option<Element>
    decreases s, s.len() - i,
{
    if i < 0 || i >= s.len() {
        Option::None
    } else {
        match s[i] {
            Node::Txt(_) => spec_find_in(s, i + 1, q),
            Node::El(e) => if spec_matches(e, q) {
                Option::Some(e)
            } else {
                match spec_find_in(e.children@, 0, q) {
                    Option::Some(r) => Option::Some(r),
                    Option::None => spec_find_in(s, i + 1, q),
                }
            },
        }
    }
}

/// The first descendant of `el` (not `el` itself) satisfying `q`.
pub open spec fn spec_find(el: Element, q: QueryV) -> Option<Element> {
    spec_find_in(el.children@, 0, q)
}

pub open spec fn opt_el_view(r: Option<&Element>) -> Option<Element> {
    match r {
        Option::Some(e) => Option::Some(*e),
        Option::None => Option::None,
    }
}

fn find_in<'a>(s: &'a Vec<Node>, i: usize, q: &Query) -> (r: Option<&'a Element>)
    requires
        i <= s@.len(),
        query_wf(q@),
    ensures
        opt_el_view(r) == spec_find_in(s@, i as int, q@),
    decreases *s, s@.len() - i,
{
    if i == s.len() {
        None
    } else {
        match &s[i] {
            Node::Txt(_) => find_in(s, i + 1, q),
            Node::El(e) => if matches(e, q) {
                Some(e)
            } else {
                match find_in(&e.children, 0, q) {
                    Some(r) => Some(r),
                    None => find_in(s, i + 1, q),
                }
            },
        }
    }
}

/// The first descendant of `el` satisfying `q`, in document order.
pub fn find_first<'a>(el: &'a Element, q: &Query) -> (r: Option<&'a Element>)
    requires
        query_wf(q@),
    ensures
        opt_el_view(r) == spec_find(*el, q@),
{
    find_in(&el.children, 0, q)
}

// ---------------------------------------------------------------------------
// All matching descendants
// ---------------------------------------------------------------------------

/// Every element among the nodes `s[i..]` and their descendants that
/// satisfies `q`, in pre-order; a matching element is listed before its
/// matching descendants.
pub open spec fn spec_select_in(s: Seq<Node>, i: int, q: QueryV) -> Seq<Element>
    decreases s, s.len() - i,
{
    if i < 0 || i >= s.len() {
        Seq::empty()
    } else {
        (match s[i] {
            Node::Txt(_) => Seq::empty(),
            Node::El(e) => (if spec_matches(e, q) {
                seq![e]
            } else {
                Seq::empty()
            }) + spec_select_in(e.children@, 0, q),
        }) + spec_select_in(s, i + 1, q)
    }
}

/// Every descendant of `el` satisfying `q`, in document order.
pub open spec fn spec_select(el: Element, q: QueryV) -> Seq<Element> {
    spec_select_in(el.children@, 0, q)
}

fn select_in<'a>(s: &'a Vec<Node>, i: usize, q: &Query, out: &mut Vec<&'a Element>)
    requires
        i <= s@.len(),
        query_wf(q@),
    ensures
        final(out)@.len() == old(out)@.len() + spec_select_in(s@, i as int, q@).len(),
        forall|j: int|
            0 <= j < old(out)@.len() ==> final(out)@[j] == old(out)@[j],
        forall|j: int|
            0 <= j < spec_select_in(s@, i as int, q@).len() ==> *final(out)@[old(out)@.len() + j]
                == spec_select_in(s@, i as int, q@)[j],
    decreases *s, s@.len() - i,
{
    if i < s.len() {
        match &s[i] {
            Node::Txt(_) => {},
            Node::El(e) => {
                if matches(e, q) {
                    out.push(e);
                }
                select_in(&e.children, 0, q, out);
            },
        }
        select_in(s, i + 1, q, out);
    }
}

/// Every descendant of `el` satisfying `q`, in document order.
pub fn select_all<'a>(el: &'a Element, q: &Query) -> (r: Vec<&'a Element>)
    requires
        query_wf(q@),
    ensures
        r@.len() == spec_select(*el, q@).len(),
        forall|j: int| 0 <= j < r@.len() ==> *r@[j] == spec_select(*el, q@)[j],
{
    let mut out: Vec<&Element> = Vec::new();
    select_in(&el.children, 0, q, &mut out);
    out
}

// ---------------------------------------------------------------------------
// Descendants within a scope
// ---------------------------------------------------------------------------

/// Every element among the nodes `s[i..]` and their descendants that
/// satisfies `q` and lies strictly below some element satisfying `scope`,
/// in pre-order. `under` says whether the nodes themselves already lie
/// below such an element.
pub open spec fn spec_select_scoped_in(
    s: Seq<Node>,
    i: int,
    scope: QueryV,
    q: QueryV,
    under: bool,
) -> Seq<Element>
    decreases s, s.len() - i,
{
    if i < 0 || i >= s.len() {
        Seq::empty()
    } else {
        (match s[i] {
            Node::Txt(_) => Seq::empty(),
            Node::El(e) => (if under && spec_matches(e, q) {
                seq![e]
            } else {
                Seq::empty()
            }) + spec_select_scoped_in(e.children@, 0, scope, q, under || spec_matches(e, scope)),
        }) + spec_select_scoped_in(s, i + 1, scope, q, under)
    }
}

/// Every descendant of `el` satisfying `q` that has a proper ancestor
/// (below `el`) satisfying `scope`, in document order.
pub open spec fn spec_select_scoped(el: Element, scope: QueryV, q: QueryV) -> Seq<Element> {
    spec_select_scoped_in(el.children@, 0, scope, q, false)
}

fn select_scoped_in<'a>(
    s: &'a Vec<Node>,
    i: usize,
    scope: &Query,
    q: &Query,
    under: bool,
    out: &mut Vec<&'a Element>,
)
    requires
        i <= s@.len(),
        query_wf(scope@),
        query_wf(q@),
    ensures
        final(out)@.len() == old(out)@.len() + spec_select_scoped_in(
            s@,
            i as int,
            scope@,
            q@,
            under,
        ).len(),
        forall|j: int| 0 <= j < old(out)@.len() ==> final(out)@[j] == old(out)@[j],
        forall|j: int|
            0 <= j < spec_select_scoped_in(s@, i as int, scope@, q@, under).len()
                ==> *(final(out)@[old(out)@.len() + j]) == spec_select_scoped_in(
                s@,
                i as int,
                scope@,
                q@,
                under,
            )[j],
    decreases *s, s@.len() - i,
{
    if i < s.len() {
        match &s[i] {
            Node::Txt(_) => {},
            Node::El(e) => {
                if under && matches(e, q) {
                    out.push(e);
                }
                let inside = under || matches(e, scope);
                select_scoped_in(&e.children, 0, scope, q, inside, out);
            },
        }
        select_scoped_in(s, i + 1, scope, q, under, out);
    }
}

/// Every descendant of `el` satisfying `q` under a proper ancestor
/// satisfying `scope`, in document order.
pub fn select_scoped<'a>(el: &'a Element, scope: &Query, q: &Query) -> (r: Vec<&'a Element>)
    requires
        query_wf(scope@),
        query_wf(q@),
    ensures
        r@.len() == spec_select_scoped(*el, scope@, q@).len(),
        forall|j: int| 0 <= j < r@.len() ==> *r@[j] == spec_select_scoped(*el, scope@, q@)[j],
{
    let mut out: Vec<&Element> = Vec::new();
    select_scoped_in(&el.children, 0, scope, q, false, &mut out);
    out
}

// ---------------------------------------------------------------------------
// Text content
// ---------------------------------------------------------------------------

/// Text accumulated from the nodes `s[i..]`, appended to `acc`: each run of
/// character data is trimmed, empty runs are dropped, and the non-empty
/// ones are joined with single spaces.
pub open spec fn spec_text_in(acc: Seq<char>, s: Seq<Node>, i: int) -> Seq<char>
    decreases s, s.len() - i,
{
    if i < 0 || i >= s.len() {
        acc
    } else {
        let acc2 = match s[i] {
            Node::Txt(t) => spec_join(acc, spec_trim(t@)),
            Node::El(e) => spec_text_in(acc, e.children@, 0),
        };
        spec_text_in(acc2, s, i + 1)
    }
}

/// The normalized text of an element: its descendant character data,
/// each run trimmed, non-empty runs joined with single spaces. The
/// normalization is per run: whitespace inside one run of character data
/// is kept as it stands; only the runs' edges are trimmed, and runs that
/// trim to nothing are dropped rather than contributing a separator.
pub open spec fn spec_text(el: Element) -> Seq<char> {
    spec_text_in(Seq::empty(), el.children@, 0)
}

fn text_in(s: &Vec<Node>, i: usize, acc: &mut Vec<char>)
    requires
        i <= s@.len(),
    ensures
        final(acc)@ == spec_text_in(old(acc)@, s@, i as int),
    decreases *s, s@.len() - i,
{
    if i < s.len() {
        match &s[i] {
            Node::Txt(t) => push_trimmed(acc, t.as_str()),
            Node::El(e) => text_in(&e.children, 0, acc),
        }
        text_in(s, i + 1, acc);
    }
}

/// The normalized text of `el`, as a character vector.
pub fn el_text(el: &Element) -> (r: Vec<char>)
    ensures
        r@ == spec_text(*el),
{
    let mut acc: Vec<char> = Vec::new();
    proof {
        assert(acc@ =~= Seq::<char>::empty());
    }
    text_in(&el.children, 0, &mut acc);
    acc
}

// ---------------------------------------------------------------------------
// Rendering an element back to markup
// ---------------------------------------------------------------------------

/// The attributes `s[i..]` rendered as ` name="value"` pairs.
pub open spec fn spec_render_attrs(s: Seq<Attr>, i: int) -> Seq<char>
    decreases s.len() - i,
{
    if i < 0 || i >= s.len() {
        Seq::empty()
    } else {
        " "@ + s[i].name@ + "=\""@ + s[i].value@ + "\""@ + spec_render_attrs(s, i + 1)
    }
}

/// The nodes `s[i..]` rendered in order: character data as it stands,
/// elements recursively.
pub open spec fn spec_render_nodes(s: Seq<Node>, i: int) -> Seq<char>
    decreases s, s.len() - i,
{
    if i < 0 || i >= s.len() {
        Seq::empty()
    } else {
        (match s[i] {
            Node::Txt(t) => t@,
            Node::El(e) => spec_render_el(e),
        }) + spec_render_nodes(s, i + 1)
    }
}

/// The element rendered as markup: its tag, its attributes in order, its
/// content, and a closing tag. This is the library's canonical rendering
/// of the model; character data is reproduced verbatim.
pub open spec fn spec_render_el(el: Element) -> Seq<char>
    decreases el, 0int,
{
    "<"@ + el.tag@ + spec_render_attrs(el.attrs@, 0) + ">"@ + spec_render_nodes(el.children@, 0)
        + "</"@ + el.tag@ + ">"@
}

fn push_str_chars(acc: &mut Vec<char>, s: &str)
    ensures
        final(acc)@ == old(acc)@ + s@,
{
    let v = crate::text::to_chars(s);
    crate::text::append_range(acc, &v, 0, v.len());
    proof {
        assert(v@.subrange(0, v@.len() as int) =~= v@);
    }
}

fn render_into(el: &Element, acc: &mut Vec<char>)
    ensures
        final(acc)@ == old(acc)@ + spec_render_el(*el),
    decreases *el,
{
    push_str_chars(acc, "<");
    push_str_chars(acc, el.tag.as_str());
    proof {
        assert(acc@ + spec_render_attrs(el.attrs@, 0) =~= old(acc)@ + "<"@ + el.tag@
            + spec_render_attrs(el.attrs@, 0));
    }
    let mut i: usize = 0;
    while i < el.attrs.len()
        invariant
            i <= el.attrs@.len(),
            acc@ + spec_render_attrs(el.attrs@, i as int) == old(acc)@ + "<"@ + el.tag@
                + spec_render_attrs(el.attrs@, 0),
        decreases el.attrs@.len() - i,
    {
        let ghost acc0 = acc@;
        push_str_chars(acc, " ");
        push_str_chars(acc, el.attrs[i].name.as_str());
        push_str_chars(acc, "=\"");
        push_str_chars(acc, el.attrs[i].value.as_str());
        push_str_chars(acc, "\"");
        proof {
            assert(acc@ + spec_render_attrs(el.attrs@, i + 1) =~= acc0 + spec_render_attrs(
                el.attrs@,
                i as int,
            ));
        }
        i = i + 1;
    }
    let ghost mid = old(acc)@ + "<"@ + el.tag@ + spec_render_attrs(el.attrs@, 0) + ">"@;
    push_str_chars(acc, ">");
    proof {
        assert(acc@ + spec_render_nodes(el.children@, 0) =~= mid + spec_render_nodes(
            el.children@,
            0,
        ));
    }
    let mut j: usize = 0;
    while j < el.children.len()
        invariant
            j <= el.children@.len(),
            acc@ + spec_render_nodes(el.children@, j as int) == mid + spec_render_nodes(
                el.children@,
                0,
            ),
        decreases *el, el.children@.len() - j,
    {
        let ghost acc0 = acc@;
        match &el.children[j] {
            Node::Txt(t) => push_str_chars(acc, t.as_str()),
            Node::El(e) => render_into(e, acc),
        }
        proof {
            assert(acc@ + spec_render_nodes(el.children@, j + 1) =~= acc0 + spec_render_nodes(
                el.children@,
                j as int,
            ));
        }
        j = j + 1;
    }
    let ghost pre = acc@;
    push_str_chars(acc, "</");
    push_str_chars(acc, el.tag.as_str());
    push_str_chars(acc, ">");
    proof {
        assert(spec_render_nodes(el.children@, el.children@.len() as int) =~= Seq::<char>::empty());
        assert(pre =~= mid + spec_render_nodes(el.children@, 0));
        assert(acc@ =~= old(acc)@ + spec_render_el(*el));
    }
}

/// Render `el` as markup, the library's canonical form of the model.
pub fn render_element(el: &Element) -> (r: Vec<char>)
    ensures
        r@ == spec_render_el(*el),
{
    let mut acc: Vec<char> = Vec::new();
    proof {
        assert(acc@ =~= Seq::<char>::empty());
    }
    render_into(el, &mut acc);
    proof {
        assert(acc@ =~= spec_render_el(*el));
    }
    acc
}

} // verus!
