//! Reflection: which fields of a struct are properties, and how each is read
//! and written.
//!
//! A field opts in with an attribute, bare for plain field access or with a
//! pair of methods: `get = f, set = g`. The attribute's arguments arrive as
//! tokens.

use crate::text::{chars, joined, replace, replaced, same, text};
use vstd::prelude::*;
use vstd::string::*;

verus! {

/// A token of an attribute's arguments.
pub enum Token {
    /// An identifier or a keyword.
    Word { text: String, keyword: bool },
    Eq,
    Comma,
    PathSep,
    Literal,
    Other,
}

/// An ASCII letter, a digit or an underscore.
pub open spec fn is_word_char(c: char) -> bool {
    'a' <= c <= 'z' || 'A' <= c <= 'Z' || '0' <= c <= '9' || c == '_'
}

/// A word of such characters that does not start with a digit.
pub open spec fn is_plain_word(s: Seq<char>) -> bool {
    &&& s.len() > 0
    &&& !('0' <= s[0] <= '9')
    &&& forall|i: int| 0 <= i < s.len() ==> is_word_char(#[trigger] s[i])
}

/// Whether a plain word parses as an identifier: which words are keywords is
/// the parser's own list.
pub uninterp spec fn parses_as_ident(word: Seq<char>) -> bool;

/// `syn::parse_str` for an identifier, of which only the success is looked at.
/// It goes by the word alone, and no word makes it panic.
#[verifier::external_body]
fn is_ident(word: &str) -> (r: bool)
    requires
        is_plain_word(word@),
    ensures
        r == parses_as_ident(word@),
{
    syn::parse_str::<syn::Ident>(word).is_ok()
}

fn plain_word(v: &Vec<char>) -> (r: bool)
    ensures
        r == is_plain_word(v@),
{
    if v.len() == 0 || ('0' <= v[0] && v[0] <= '9') {
        return false;
    }
    let mut i: usize = 0;
    while i < v.len()
        invariant
            i <= v.len(),
            forall|k: int| 0 <= k < i ==> is_word_char(#[trigger] v[k]),
        decreases v.len() - i,
    {
        let c: char = v[i];
        if !(('a' <= c && c <= 'z') || ('A' <= c && c <= 'Z') || ('0' <= c && c <= '9') || c
            == '_') {
            assert(!is_word_char(v@[i as int]));
            return false;
        }
        i = i + 1;
    }
    true
}

/// The token of an identifier or a keyword, by its text. Keywords are plain
/// words that do not parse as an identifier; a raw identifier, or one beyond
/// ASCII, never is one.
pub fn word_token(text: &str) -> (r: Token)
    ensures
        r is Word,
        r->text@ == text@,
        r->keyword == (is_plain_word(text@) && !parses_as_ident(text@)),
{
    let keyword: bool = plain_word(&chars(text)) && !is_ident(text);
    Token::Word { text: text.to_owned(), keyword }
}

/// The form of a field's attribute.
pub enum Attribute {
    /// Without arguments.
    Bare,
    /// With arguments in parentheses.
    List(Vec<Token>),
    /// With a value.
    NameValue,
}

/// A field, with its attribute if it has one.
pub struct Field {
    pub name: String,
    pub ty: String,
    pub export: Option<Attribute>,
}

/// What the derive is applied to.
pub enum Shape {
    /// A struct with named fields.
    Named(Vec<Field>),
    /// Anything else.
    Other,
}

/// Why a derive is refused. Places are token numbers of the attribute's
/// arguments; one past the last stands for their end.
#[derive(Clone, Copy, PartialEq, Eq, Structural, Debug)]
pub enum ExportError {
    NotNamedStruct,
    /// A key that is neither of the two, from one place up to another.
    UnknownKey { from: usize, to: usize },
    Unpaired,
    NotAList,
    /// The arguments end where a key must be.
    ExpectedNested,
    UnexpectedLiteral { at: usize },
    UnexpectedToken { at: usize },
    ExpectedEq { at: usize },
    /// No method is named behind the equals sign.
    ExpectedIdent { at: usize },
    /// No word follows the separator of a path.
    ExpectedSegment { at: usize },
    Keyword { at: usize },
    ExpectedComma { at: usize },
}

/// An error, and which field's attribute it is in, if in one.
#[derive(Clone, Copy, PartialEq, Eq, Structural, Debug)]
pub struct Refusal {
    pub field: Option<usize>,
    pub error: ExportError,
}

/// The methods that a property goes through, as far as they are named.
pub ghost struct Routing {
    pub get: Option<Seq<char>>,
    pub set: Option<Seq<char>>,
}

/// A path of the arguments: the word, if it is one word alone, where its first
/// word stands, and where the tokens go on.
pub ghost struct PathAt {
    pub word: Option<Seq<char>>,
    pub first: nat,
    pub next: nat,
}

/// Where a run of further path segments ends, from `at` on.
pub open spec fn segments(ts: Seq<Token>, at: nat) -> Result<nat, ExportError>
    decreases ts.len() - at,
{
    if at < ts.len() && ts[at as int] is PathSep {
        if at + 1 < ts.len() && ts[at as int + 1] is Word {
            segments(ts, at + 2)
        } else {
            Err(ExportError::ExpectedSegment { at: (at + 1) as usize })
        }
    } else {
        Ok(at)
    }
}

/// The path at `at`.
pub open spec fn path_at(ts: Seq<Token>, at: nat) -> Result<PathAt, ExportError> {
    let leading = at < ts.len() && ts[at as int] is PathSep;
    let first = if leading {
        at + 1
    } else {
        at
    };
    if first >= ts.len() {
        Err(ExportError::ExpectedNested)
    } else {
        match ts[first as int] {
            Token::Word { text, .. } => match segments(ts, first + 1) {
                Ok(next) => Ok(
                    PathAt {
                        word: if !leading && next == first + 1 {
                            Some(text@)
                        } else {
                            None
                        },
                        first,
                        next,
                    },
                ),
                Err(e) => Err(e),
            },
            Token::Literal => Err(ExportError::UnexpectedLiteral { at: first as usize }),
            _ => Err(ExportError::UnexpectedToken { at: first as usize }),
        }
    }
}

proof fn lemma_segments(ts: Seq<Token>, at: nat)
    ensures
        segments(ts, at) is Ok ==> at <= segments(ts, at)->Ok_0,
    decreases ts.len() - at,
{
    if at < ts.len() && ts[at as int] is PathSep && at + 1 < ts.len() && ts[at as int + 1] is Word {
        lemma_segments(ts, at + 2);
    }
}

/// A path takes at least one token.
pub proof fn lemma_path_advances(ts: Seq<Token>, at: nat)
    ensures
        path_at(ts, at) is Ok ==> at < path_at(ts, at)->Ok_0.next,
{
    lemma_segments(ts, at + 1);
    lemma_segments(ts, at + 2);
}

/// The method named at `at`, behind an equals sign.
pub open spec fn value_at(ts: Seq<Token>, at: nat) -> Result<Seq<char>, ExportError> {
    if at >= ts.len() || !(ts[at as int] is Eq) {
        Err(ExportError::ExpectedEq { at: at as usize })
    } else if at + 1 >= ts.len() {
        Err(ExportError::ExpectedIdent { at: (at + 1) as usize })
    } else {
        match ts[at as int + 1] {
            Token::Word { text, keyword } => if keyword {
                Err(ExportError::Keyword { at: (at + 1) as usize })
            } else {
                Ok(text@)
            },
            _ => Err(ExportError::ExpectedIdent { at: (at + 1) as usize }),
        }
    }
}

/// The routing after the item `key = value`; a later one replaces an earlier.
pub open spec fn routed(r: Routing, key: Option<Seq<char>>, value: Seq<char>) -> Routing {
    if key == Some("get"@) {
        Routing { get: Some(value), ..r }
    } else {
        Routing { set: Some(value), ..r }
    }
}

/// The routing that the items from `at` on add to `r`. The first thing that
/// does not fit decides the error.
pub open spec fn items(ts: Seq<Token>, at: nat, r: Routing) -> Result<Routing, ExportError>
    decreases ts.len() - at,
{
    match path_at(ts, at) {
        Err(e) => Err(e),
        Ok(p) => if !(p.word == Some("get"@) || p.word == Some("set"@)) {
            Err(ExportError::UnknownKey { from: p.first as usize, to: p.next as usize })
        } else {
            match value_at(ts, p.next) {
                Err(e) => Err(e),
                Ok(v) => {
                    let next = p.next + 2;
                    let done = routed(r, p.word, v);
                    if next >= ts.len() {
                        Ok(done)
                    } else if !(ts[next as int] is Comma) {
                        Err(ExportError::ExpectedComma { at: next as usize })
                    } else if next + 1 >= ts.len() {
                        Ok(done)
                    } else {
                        proof {
                            lemma_path_advances(ts, at);
                        }
                        items(ts, next + 1, done)
                    }
                },
            }
        },
    }
}

/// The routing of an attribute. Half a routing is the dangerous shape: a
/// method-backed setter with a field read publishes one and skips the other.
pub open spec fn routing(a: Attribute) -> Result<Routing, ExportError> {
    let none = Routing { get: None, set: None };
    let parsed = match a {
        Attribute::Bare => Ok(none),
        Attribute::NameValue => Err(ExportError::NotAList),
        Attribute::List(ts) => if ts@.len() == 0 {
            Ok(none)
        } else {
            items(ts@, 0, none)
        },
    };
    match parsed {
        Ok(r) => if (r.get is Some) != (r.set is Some) {
            Err(ExportError::Unpaired)
        } else {
            Ok(r)
        },
        Err(e) => Err(e),
    }
}

/// How one exported field is read and written.
pub struct Prop {
    pub name: String,
    pub ty: String,
    pub get: Option<String>,
    pub set: Option<String>,
}

/// A property, with its texts as sequences.
pub ghost struct PropModel {
    pub name: Seq<char>,
    pub ty: Seq<char>,
    pub routing: Routing,
}

/// The view of an optional text.
pub open spec fn opt(s: Option<String>) -> Option<Seq<char>> {
    match s {
        Some(t) => Some(t@),
        None => None,
    }
}

impl View for Prop {
    type V = PropModel;

    open spec fn view(&self) -> PropModel {
        PropModel {
            name: self.name@,
            ty: self.ty@,
            routing: Routing { get: opt(self.get), set: opt(self.set) },
        }
    }
}

/// The properties of the first `n` fields, in order: those that carry the
/// attribute. The first error wins.
pub open spec fn props_of(fields: Seq<Field>, n: nat) -> Result<Seq<PropModel>, Refusal>
    decreases n,
{
    if n == 0 {
        Ok(Seq::empty())
    } else {
        match props_of(fields, (n - 1) as nat) {
            Err(e) => Err(e),
            Ok(ps) => match fields[n - 1].export {
                None => Ok(ps),
                Some(a) => match routing(a) {
                    Err(e) => Err(Refusal { field: Some((n - 1) as usize), error: e }),
                    Ok(r) => Ok(
                        ps.push(
                            PropModel {
                                name: fields[n - 1].name@,
                                ty: fields[n - 1].ty@,
                                routing: r,
                            },
                        ),
                    ),
                },
            },
        }
    }
}

/// The models of a list of properties.
pub open spec fn prop_models(ps: Seq<Prop>) -> Seq<PropModel> {
    Seq::new(ps.len(), |i: int| ps[i]@)
}

/// The path at `at`: which of the two keys it is, if either, where its first
/// word stands, and where the tokens go on.
fn read_key(ts: &Vec<Token>, at: usize) -> (r: Result<(Option<bool>, usize, usize), ExportError>)
    requires
        at <= ts.len(),
    ensures
        match (r, path_at(ts@, at as nat)) {
            (Ok(a), Ok(b)) => {
                &&& a.1 == b.first
                &&& a.2 == b.next
                &&& at < a.2 <= ts.len()
                &&& (a.0 == Some(true)) == (b.word == Some("get"@))
                &&& (a.0 == Some(false)) == (b.word == Some("set"@))
            },
            (Err(a), Err(b)) => a == b,
            _ => false,
        },
{
    proof {
        reveal_strlit("get");
        reveal_strlit("set");
        assert("get"@[0] == 'g');
        assert("set"@[0] == 's');
    }
    let leading: bool = at < ts.len() && matches!(&ts[at], Token::PathSep);
    let first: usize = if leading { at + 1 } else { at };
    if first >= ts.len() {
        return Err(ExportError::ExpectedNested);
    }
    let key: Option<bool> = match &ts[first] {
        Token::Word { text, .. } => if same(text.as_str(), "get") {
            Some(true)
        } else if same(text.as_str(), "set") {
            Some(false)
        } else {
            None
        },
        Token::Literal => {
            return Err(ExportError::UnexpectedLiteral { at: first });
        },
        _ => {
            return Err(ExportError::UnexpectedToken { at: first });
        },
    };
    let mut next: usize = first + 1;
    while next < ts.len() && matches!(&ts[next], Token::PathSep)
        invariant
            first < next <= ts.len(),
            at <= first,
            first < ts.len(),
            leading == (at < ts.len() && ts@[at as int] is PathSep),
            first == if leading { at + 1 } else { at as int },
            ts@[first as int] is Word,
            segments(ts@, (first + 1) as nat) == segments(ts@, next as nat),
        decreases ts.len() - next,
    {
        if next + 1 < ts.len() && matches!(&ts[next + 1], Token::Word { .. }) {
            next = next + 2;
        } else {
            return Err(ExportError::ExpectedSegment { at: next + 1 });
        }
    }
    if leading || next != first + 1 {
        Ok((None, first, next))
    } else {
        Ok((key, first, next))
    }
}

fn read_value(ts: &Vec<Token>, at: usize) -> (r: Result<String, ExportError>)
    requires
        at <= ts.len(),
    ensures
        match (r, value_at(ts@, at as nat)) {
            (Ok(a), Ok(b)) => a@ == b && at + 2 <= ts.len(),
            (Err(a), Err(b)) => a == b,
            _ => false,
        },
{
    if at >= ts.len() || !matches!(&ts[at], Token::Eq) {
        return Err(ExportError::ExpectedEq { at });
    }
    if at + 1 >= ts.len() {
        return Err(ExportError::ExpectedIdent { at: at + 1 });
    }
    match &ts[at + 1] {
        Token::Word { text, keyword } => if *keyword {
            Err(ExportError::Keyword { at: at + 1 })
        } else {
            Ok(text.clone())
        },
        _ => Err(ExportError::ExpectedIdent { at: at + 1 }),
    }
}

/// The model of a pair of optional method names.
pub open spec fn pair(get: Option<String>, set: Option<String>) -> Routing {
    Routing { get: opt(get), set: opt(set) }
}

fn read_items(ts: &Vec<Token>) -> (r: Result<(Option<String>, Option<String>), ExportError>)
    requires
        ts.len() > 0,
    ensures
        match (r, items(ts@, 0, (Routing { get: None, set: None }))) {
            (Ok(a), Ok(b)) => pair(a.0, a.1) == b,
            (Err(a), Err(b)) => a == b,
            _ => false,
        },
{
    let mut get: Option<String> = None;
    let mut set: Option<String> = None;
    let mut at: usize = 0;
    let ghost start = Routing { get: None, set: None };
    loop
        invariant
            at <= ts.len(),
            start == (Routing { get: None, set: None }),
            items(ts@, 0, start) == items(ts@, at as nat, pair(get, set)),
        decreases ts.len() - at,
    {
        let ghost now = pair(get, set);
        let (key, first, next): (Option<bool>, usize, usize) = match read_key(ts, at) {
            Ok(p) => p,
            Err(e) => {
                return Err(e);
            },
        };
        let is_get: bool = match key {
            Some(g) => g,
            None => {
                return Err(ExportError::UnknownKey { from: first, to: next });
            },
        };
        let value: String = match read_value(ts, next) {
            Ok(v) => v,
            Err(e) => {
                return Err(e);
            },
        };
        let ghost v = value@;
        proof {
            reveal_strlit("get");
            reveal_strlit("set");
            assert("get"@[0] == 'g');
            assert("set"@[0] == 's');
        }
        if is_get {
            get = Some(value);
        } else {
            set = Some(value);
        }
        assert(pair(get, set) == routed(now, path_at(ts@, at as nat)->Ok_0.word, v));
        let after: usize = next + 2;
        if after >= ts.len() {
            return Ok((get, set));
        }
        if !matches!(&ts[after], Token::Comma) {
            return Err(ExportError::ExpectedComma { at: after });
        }
        if after + 1 >= ts.len() {
            return Ok((get, set));
        }
        at = after + 1;
    }
}

/// Read one field's attribute.
pub fn parse_prop(field: &Field, attribute: &Attribute) -> (r: Result<Prop, ExportError>)
    ensures
        match (r, routing(*attribute)) {
            (Ok(p), Ok(b)) => p@ == (PropModel { name: field.name@, ty: field.ty@, routing: b }),
            (Err(a), Err(b)) => a == b,
            _ => false,
        },
{
    let (get, set): (Option<String>, Option<String>) = match attribute {
        Attribute::Bare => (None, None),
        Attribute::NameValue => {
            return Err(ExportError::NotAList);
        },
        Attribute::List(ts) => if ts.len() == 0 {
            (None, None)
        } else {
            match read_items(ts) {
                Ok(p) => p,
                Err(e) => {
                    return Err(e);
                },
            }
        },
    };
    if get.is_some() != set.is_some() {
        return Err(ExportError::Unpaired);
    }
    Ok(Prop { name: field.name.clone(), ty: field.ty.clone(), get, set })
}

/// How a property is reached: as the field of that name, or through the method
/// of that name.
pub enum Access {
    Field(String),
    Method(String),
}

/// An access, with its text as a sequence.
pub ghost enum AccessModel {
    Field(Seq<char>),
    Method(Seq<char>),
}

impl View for Access {
    type V = AccessModel;

    open spec fn view(&self) -> AccessModel {
        match self {
            Access::Field(f) => AccessModel::Field(f@),
            Access::Method(m) => AccessModel::Method(m@),
        }
    }
}

/// The view of an optional access.
pub open spec fn opt_access(a: Option<Access>) -> Option<AccessModel> {
    match a {
        Some(a) => Some(a@),
        None => None,
    }
}

/// The field, or the method if one is named.
pub open spec fn access_of(field: Seq<char>, method: Option<Seq<char>>) -> AccessModel {
    match method {
        Some(m) => AccessModel::Method(m),
        None => AccessModel::Field(field),
    }
}

impl PropModel {
    pub open spec fn reads(self) -> AccessModel {
        access_of(self.name, self.routing.get)
    }

    pub open spec fn writes(self) -> AccessModel {
        access_of(self.name, self.routing.set)
    }
}

fn access(field: &String, method: &Option<String>) -> (r: Access)
    ensures
        r@ == access_of(field@, opt(*method)),
{
    match method {
        Some(m) => Access::Method(m.clone()),
        None => Access::Field(field.clone()),
    }
}

impl Prop {
    /// What reading the property reads.
    pub fn read(&self) -> (r: Access)
        ensures
            r@ == self@.reads(),
    {
        access(&self.name, &self.get)
    }

    /// What writing the property writes.
    pub fn write(&self) -> (r: Access)
        ensures
            r@ == self@.writes(),
    {
        access(&self.name, &self.set)
    }
}

/// What a type exports.
pub struct Export {
    /// The name of the type, stable across builds, so that a file can name it.
    pub name: String,
    /// The exported fields, in the order of the fields.
    pub props: Vec<Prop>,
}

/// The first property of that name.
pub open spec fn named(ps: Seq<PropModel>, name: Seq<char>) -> Option<PropModel>
    decreases ps.len(),
{
    if ps.len() == 0 {
        None
    } else {
        match named(ps.drop_last(), name) {
            Some(p) => Some(p),
            None => if ps.last().name == name {
                Some(ps.last())
            } else {
                None
            },
        }
    }
}

/// What reading by name reads: nothing, if no property has the name.
pub open spec fn got(ps: Seq<PropModel>, name: Seq<char>) -> Option<AccessModel> {
    match named(ps, name) {
        Some(p) => Some(p.reads()),
        None => None,
    }
}

/// What writing by name writes. Nothing is written, and the write is refused,
/// if no property has the name or its type does not take the value.
pub open spec fn written(ps: Seq<PropModel>, name: Seq<char>, takes: bool) -> Option<
    AccessModel,
> {
    match named(ps, name) {
        Some(p) => if takes {
            Some(p.writes())
        } else {
            None
        },
        None => None,
    }
}

impl Export {
    fn find(&self, name: &str) -> (r: Option<&Prop>)
        ensures
            match r {
                Some(p) => named(prop_models(self.props@), name@) == Some(p@),
                None => named(prop_models(self.props@), name@) is None,
            },
    {
        let ghost models = prop_models(self.props@);
        let mut i: usize = 0;
        while i < self.props.len()
            invariant
                i <= self.props.len(),
                models == prop_models(self.props@),
                named(models.take(i as int), name@) is None,
            decreases self.props.len() - i,
        {
            assert(models.take(i + 1).drop_last() =~= models.take(i as int));
            if same(self.props[i].name.as_str(), name) {
                proof {
                    lemma_first_named(models, name@, (i + 1) as nat);
                }
                return Some(&self.props[i]);
            }
            i = i + 1;
        }
        assert(models.take(i as int) =~= models);
        None
    }

    /// What the generated `get` reads for a name.
    pub fn get(&self, name: &str) -> (r: Option<Access>)
        ensures
            opt_access(r) == got(prop_models(self.props@), name@),
    {
        match self.find(name) {
            Some(p) => Some(p.read()),
            None => None,
        }
    }

    /// What the generated `set` writes for a name, where `takes` says whether
    /// the property's type takes the value. Without a result it returns false
    /// and writes nothing.
    pub fn set(&self, name: &str, takes: bool) -> (r: Option<Access>)
        ensures
            opt_access(r) == written(prop_models(self.props@), name@, takes),
    {
        match self.find(name) {
            Some(p) => if takes {
                Some(p.write())
            } else {
                None
            },
            None => None,
        }
    }
}

proof fn lemma_first_named(ps: Seq<PropModel>, name: Seq<char>, n: nat)
    requires
        n <= ps.len(),
        named(ps.take(n as int), name) is Some,
    ensures
        named(ps, name) == named(ps.take(n as int), name),
    decreases ps.len() - n,
{
    if n < ps.len() {
        assert(ps.take(n as int + 1).drop_last() =~= ps.take(n as int));
        lemma_first_named(ps, name, n + 1);
    } else {
        assert(ps.take(n as int) =~= ps);
    }
}

/// What the type of that name and shape exports.
pub fn expand(name: &str, shape: &Shape) -> (r: Result<Export, Refusal>)
    ensures
        match *shape {
            Shape::Other => r is Err && r->Err_0 == (Refusal {
                field: None,
                error: ExportError::NotNamedStruct,
            }),
            Shape::Named(fields) => match (r, props_of(fields@, fields@.len())) {
                (Ok(e), Ok(b)) => e.name@ == name@ && prop_models(e.props@) == b,
                (Err(a), Err(b)) => a == b,
                _ => false,
            },
        },
{
    let fields: &Vec<Field> = match shape {
        Shape::Named(f) => f,
        Shape::Other => {
            return Err(Refusal { field: None, error: ExportError::NotNamedStruct });
        },
    };
    let mut props: Vec<Prop> = Vec::new();
    let mut i: usize = 0;
    assert(prop_models(props@) =~= Seq::empty());
    while i < fields.len()
        invariant
            i <= fields.len(),
            *shape == Shape::Named(*fields),
            props_of(fields@, i as nat) == Ok::<Seq<PropModel>, Refusal>(prop_models(props@)),
        decreases fields.len() - i,
    {
        match &fields[i].export {
            Some(a) => match parse_prop(&fields[i], a) {
                Ok(p) => {
                    let ghost before = prop_models(props@);
                    props.push(p);
                    assert(prop_models(props@) =~= before.push(p@));
                },
                Err(e) => {
                    proof {
                        lemma_first_error(fields@, (i + 1) as nat, fields@.len());
                    }
                    return Err(Refusal { field: Some(i), error: e });
                },
            },
            None => {},
        }
        i = i + 1;
    }
    Ok(Export { name: name.to_owned(), props })
}

proof fn lemma_first_error(fields: Seq<Field>, j: nat, n: nat)
    requires
        j <= n,
        props_of(fields, j) is Err,
    ensures
        props_of(fields, n) == props_of(fields, j),
    decreases n - j,
{
    if j < n {
        lemma_first_error(fields, j, (n - 1) as nat);
    }
}

/// Where generated paths start: the core crate directly if it is depended on,
/// else through the facade, else by the core's own name.
pub fn root(core: Option<&str>, facade: Option<&str>) -> (r: String)
    ensures
        r@ == match (core, facade) {
            (Some(c), _) => "::"@ + replaced(c@, '-', '_'),
            (None, Some(f)) => "::"@ + replaced(f@, '-', '_') + "::engine_core"@,
            (None, None) => "::engine_core"@,
        },
{
    match (core, facade) {
        (Some(c), _) => joined("::".to_owned(), text(&replace(&chars(c), '-', '_')).as_str()),
        (None, Some(f)) => joined(
            joined("::".to_owned(), text(&replace(&chars(f), '-', '_')).as_str()),
            "::engine_core",
        ),
        (None, None) => "::engine_core".to_owned(),
    }
}

/// A message about a place, which says so where the arguments end there.
pub open spec fn at_place(ts: Seq<Token>, at: usize, message: Seq<char>) -> Seq<char> {
    if at >= ts.len() {
        "unexpected end of input, "@ + message
    } else {
        message
    }
}

/// The word at a place, if there is one.
pub open spec fn word_at(ts: Seq<Token>, at: usize) -> Seq<char> {
    if at < ts.len() {
        match ts[at as int] {
            Token::Word { text, .. } => text@,
            _ => Seq::empty(),
        }
    } else {
        Seq::empty()
    }
}

/// What the compiler is told of an error in these arguments.
pub open spec fn message_of(e: ExportError, ts: Seq<Token>) -> Seq<char> {
    match e {
        ExportError::NotNamedStruct => "#[derive(Export)] needs a struct with named fields"@,
        ExportError::UnknownKey { .. } => "expected `get` or `set`"@,
        ExportError::Unpaired =>
            "`get` and `set` come as a pair — give both, or neither for plain field access"@,
        ExportError::NotAList => "expected parentheses: #[export(...)]"@,
        ExportError::ExpectedNested => "unexpected end of input, "@ + "expected nested attribute"@,
        ExportError::UnexpectedLiteral { .. } =>
            "unexpected literal in nested attribute, expected ident"@,
        ExportError::UnexpectedToken { .. } =>
            "unexpected token in nested attribute, expected ident"@,
        ExportError::ExpectedEq { .. } => "expected `=`"@,
        ExportError::ExpectedIdent { at } => at_place(ts, at, "expected identifier"@),
        ExportError::ExpectedSegment { at } => at_place(ts, at, "expected ident"@),
        ExportError::Keyword { at } => "expected identifier, found keyword `"@ + word_at(ts, at)
            + "`"@,
        ExportError::ExpectedComma { .. } => "expected `,`"@,
    }
}

fn placed(ts: &Vec<Token>, at: usize, message: &str) -> (r: String)
    ensures
        r@ == at_place(ts@, at, message@),
{
    if at >= ts.len() {
        joined("unexpected end of input, ".to_owned(), message)
    } else {
        message.to_owned()
    }
}

fn word(ts: &Vec<Token>, at: usize) -> (r: String)
    ensures
        r@ == word_at(ts@, at),
{
    if at < ts.len() {
        if let Token::Word { text, .. } = &ts[at] {
            return text.clone();
        }
    }
    String::new()
}

impl ExportError {
    /// What the compiler is told. The tokens are those of the attribute that
    /// the error is in.
    pub fn message(&self, tokens: &Vec<Token>) -> (r: String)
        ensures
            r@ == message_of(*self, tokens@),
    {
        match self {
            ExportError::NotNamedStruct => "#[derive(Export)] needs a struct with named fields"
                .to_owned(),
            ExportError::UnknownKey { .. } => "expected `get` or `set`".to_owned(),
            ExportError::Unpaired =>
                "`get` and `set` come as a pair — give both, or neither for plain field access"
                .to_owned(),
            ExportError::NotAList => "expected parentheses: #[export(...)]".to_owned(),
            ExportError::ExpectedNested => joined(
                "unexpected end of input, ".to_owned(),
                "expected nested attribute",
            ),
            ExportError::UnexpectedLiteral { .. } =>
                "unexpected literal in nested attribute, expected ident".to_owned(),
            ExportError::UnexpectedToken { .. } =>
                "unexpected token in nested attribute, expected ident".to_owned(),
            ExportError::ExpectedEq { .. } => "expected `=`".to_owned(),
            ExportError::ExpectedIdent { at } => placed(tokens, *at, "expected identifier"),
            ExportError::ExpectedSegment { at } => placed(tokens, *at, "expected ident"),
            ExportError::Keyword { at } => joined(
                joined(
                    "expected identifier, found keyword `".to_owned(),
                    word(tokens, *at).as_str(),
                ),
                "`",
            ),
            ExportError::ExpectedComma { .. } => "expected `,`".to_owned(),
        }
    }
}

/// Every property is read and written the same way: through both methods or
/// through neither.
pub proof fn properties_are_routed_in_pairs(fields: Seq<Field>, n: nat, i: int)
    requires
        n <= fields.len(),
        props_of(fields, n) is Ok,
        0 <= i < props_of(fields, n)->Ok_0.len(),
    ensures
        props_of(fields, n)->Ok_0.len() <= n,
        ({
            let p = props_of(fields, n)->Ok_0[i];
            (p.routing.get is Some) == (p.routing.set is Some)
        }),
    decreases n,
{
    if n > 0 {
        let before = props_of(fields, (n - 1) as nat);
        let now = props_of(fields, n)->Ok_0;
        lemma_prop_count(fields, n);
        if i < before->Ok_0.len() {
            properties_are_routed_in_pairs(fields, (n - 1) as nat, i);
            assert(now[i] == before->Ok_0[i]);
        }
    }
}

proof fn lemma_prop_count(fields: Seq<Field>, n: nat)
    ensures
        props_of(fields, n) is Ok ==> props_of(fields, n)->Ok_0.len() <= n,
    decreases n,
{
    if n > 0 {
        lemma_prop_count(fields, (n - 1) as nat);
    }
}

/// The exported ones of the first `n` fields, by their places, in order.
pub open spec fn exported(fields: Seq<Field>, n: nat) -> Seq<int>
    decreases n,
{
    if n == 0 {
        Seq::empty()
    } else if fields[n - 1].export is Some {
        exported(fields, (n - 1) as nat).push(n - 1)
    } else {
        exported(fields, (n - 1) as nat)
    }
}

/// Field `i` is exported under the name.
pub open spec fn exports(fields: Seq<Field>, i: int, name: Seq<char>) -> bool {
    0 <= i < fields.len() && fields[i].export is Some && fields[i].name@ == name
}

/// The properties are exactly the exported fields, in order, each as its own
/// attribute routes it.
pub proof fn properties_are_the_exported_fields(fields: Seq<Field>, n: nat)
    requires
        n <= fields.len(),
        props_of(fields, n) is Ok,
    ensures
        ({
            let ps = props_of(fields, n)->Ok_0;
            let es = exported(fields, n);
            &&& ps.len() == es.len()
            &&& forall|k: int|
                0 <= k < ps.len() ==> 0 <= es[k] < n && fields[es[k]].export is Some && routing(
                    fields[es[k]].export->0,
                ) == Ok::<Routing, ExportError>((#[trigger] ps[k]).routing) && ps[k].name
                    == fields[es[k]].name@ && ps[k].ty == fields[es[k]].ty@
            &&& forall|j: int, k: int| 0 <= j < k < es.len() ==> es[j] < es[k]
            &&& forall|i: int|
                0 <= i < n && (#[trigger] fields[i]).export is Some ==> es.contains(i)
        }),
    decreases n,
{
    if n > 0 {
        let m = (n - 1) as nat;
        properties_are_the_exported_fields(fields, m);
        let before = exported(fields, m);
        let es = exported(fields, n);
        let had = props_of(fields, m)->Ok_0;
        let ps = props_of(fields, n)->Ok_0;
        assert forall|k: int| 0 <= k < ps.len() implies 0 <= es[k] < n && fields[es[k]].export is
            Some && routing(fields[es[k]].export->0) == Ok::<Routing, ExportError>(
            (#[trigger] ps[k]).routing,
        ) && ps[k].name == fields[es[k]].name@ && ps[k].ty == fields[es[k]].ty@ by {
            if k < had.len() {
                assert(ps[k] == had[k]);
                assert(es[k] == before[k]);
            }
        }
        assert forall|j: int, k: int| 0 <= j < k < es.len() implies es[j] < es[k] by {
            if k < before.len() {
                assert(es[j] == before[j] && es[k] == before[k]);
            } else {
                assert(es[j] == before[j]);
                assert(had[j].name == fields[before[j]].name@);
            }
        }
        assert forall|i: int|
            0 <= i < n && (#[trigger] fields[i]).export is Some implies es.contains(i) by {
            if i < m {
                let k = choose|k: int| 0 <= k < before.len() && before[k] == i;
                assert(es[k] == i);
            } else {
                assert(es[es.len() - 1] == i);
            }
        }
    }
}

proof fn lemma_named(ps: Seq<PropModel>, name: Seq<char>)
    ensures
        match named(ps, name) {
            Some(p) => p.name == name && exists|k: int|
                0 <= k < ps.len() && #[trigger] ps[k] == p,
            None => forall|k: int| 0 <= k < ps.len() ==> (#[trigger] ps[k]).name != name,
        },
    decreases ps.len(),
{
    if ps.len() > 0 {
        let front = ps.drop_last();
        lemma_named(front, name);
        match named(front, name) {
            Some(p) => {
                let k = choose|k: int| 0 <= k < front.len() && #[trigger] front[k] == p;
                assert(ps[k] == p);
            },
            None => {
                assert forall|k: int| 0 <= k < ps.len() && k < front.len() implies (
                #[trigger] ps[k]).name != name by {
                    assert(ps[k] == front[k]);
                }
                if ps.last().name == name {
                    assert(ps[ps.len() - 1] == ps.last());
                }
            },
        }
    }
}

/// A name reaches a property exactly if a field of that name is exported.
/// Reading gives a value exactly for those names, and writing succeeds exactly
/// if the property's type takes the value besides. Either goes through the
/// method that the field's attribute names, or to the field itself. A write
/// that does not succeed writes nothing.
pub proof fn names_reach_exported_fields(fields: Seq<Field>, name: Seq<char>, takes: bool)
    requires
        props_of(fields, fields.len()) is Ok,
    ensures
        ({
            let ps = props_of(fields, fields.len())->Ok_0;
            let known = exists|i: int| #[trigger] exports(fields, i, name);
            &&& (got(ps, name) is Some) == known
            &&& (written(ps, name, takes) is Some) == (known && takes)
            &&& known ==> exists|i: int| #[trigger]
                exports(fields, i, name) && ({
                    let r = routing(fields[i].export->0)->Ok_0;
                    &&& got(ps, name) == Some(access_of(name, r.get))
                    &&& takes ==> written(ps, name, takes) == Some(access_of(name, r.set))
                })
        }),
{
    let n = fields.len();
    let ps = props_of(fields, n)->Ok_0;
    let es = exported(fields, n);
    properties_are_the_exported_fields(fields, n);
    lemma_named(ps, name);
    match named(ps, name) {
        Some(p) => {
            let k = choose|k: int| 0 <= k < ps.len() && #[trigger] ps[k] == p;
            assert(ps[k].name == fields[es[k]].name@);
            assert(exports(fields, es[k], name));
        },
        None => {
            assert forall|i: int| !(#[trigger] exports(fields, i, name)) by {
                if exports(fields, i, name) {
                    assert(fields[i].export is Some);
                    let k = choose|k: int| 0 <= k < es.len() && es[k] == i;
                    assert(ps[k].name == fields[es[k]].name@);
                }
            }
        },
    }
}

/// A plain word is letters, digits and underscores, and starts with no digit.
pub proof fn plain_words_are_ascii(s: Seq<char>, c: char)
    ensures
        is_word_char(c) <==> 0x61 <= c as u32 <= 0x7a || 0x41 <= c as u32 <= 0x5a || 0x30
            <= c as u32 <= 0x39 || c as u32 == 0x5f,
        is_plain_word(seq![c]) <==> is_word_char(c) && !(0x30 <= c as u32 <= 0x39),
        is_plain_word(s) ==> (is_plain_word(s.push(c)) <==> is_word_char(c)),
        is_plain_word(s.push(c)) ==> s.len() == 0 || is_plain_word(s),
        !is_plain_word(Seq::<char>::empty()),
{
    let t = s.push(c);
    let u = seq![c];
    assert(u[0] == c);
    assert(t[s.len() as int] == c);
    if s.len() > 0 {
        assert(t[0] == s[0]);
    }
    assert(forall|i: int| 0 <= i < s.len() ==> t[i] == #[trigger] s[i]);
    if is_plain_word(s) && is_word_char(c) {
        assert forall|i: int| 0 <= i < t.len() implies is_word_char(#[trigger] t[i]) by {
            if i < s.len() {
                assert(t[i] == s[i]);
            }
        }
    }
    if is_plain_word(t) && s.len() > 0 {
        assert forall|i: int| 0 <= i < s.len() implies is_word_char(#[trigger] s[i]) by {
            assert(is_word_char(t[i]));
        }
    }
}

/// A token that names a method of a pair.
pub open spec fn names_method(t: Token, method: Seq<char>) -> bool {
    t is Word && t->text@ == method && !t->keyword
}

/// A token that is the word.
pub open spec fn is_key(t: Token, key: Seq<char>) -> bool {
    t is Word && t->text@ == key
}

/// An attribute that names both methods routes the property through them, in
/// whichever order they come and with a comma behind them or not.
pub proof fn pairs_route_through_their_methods(ts: Vec<Token>, f: Seq<char>, g: Seq<char>)
    requires
        ts.len() == 7 || ts.len() == 8 && ts[7] is Comma,
        ts[1] is Eq && ts[3] is Comma && ts[5] is Eq,
        names_method(ts[2], f) && names_method(ts[6], g),
    ensures
        is_key(ts[0], "get"@) && is_key(ts[4], "set"@) ==> routing(Attribute::List(ts)) == Ok::<
            Routing,
            ExportError,
        >(Routing { get: Some(f), set: Some(g) }),
        is_key(ts[0], "set"@) && is_key(ts[4], "get"@) ==> routing(Attribute::List(ts)) == Ok::<
            Routing,
            ExportError,
        >(Routing { get: Some(g), set: Some(f) }),
{
    reveal_strlit("get");
    reveal_strlit("set");
    assert("get"@[0] == 'g' && "set"@[0] == 's');
    let t = ts@;
    assert(t[0] == ts[0] && t[1] == ts[1] && t[2] == ts[2] && t[3] == ts[3]);
    assert(t[4] == ts[4] && t[5] == ts[5] && t[6] == ts[6]);
    reveal_with_fuel(items, 3);
    reveal_with_fuel(segments, 2);
}

/// Half a pair is refused, whichever half it is.
pub proof fn half_a_pair_is_refused(ts: Vec<Token>, f: Seq<char>)
    requires
        ts.len() == 3 || ts.len() == 4 && ts[3] is Comma,
        ts[1] is Eq,
        names_method(ts[2], f),
        is_key(ts[0], "get"@) || is_key(ts[0], "set"@),
    ensures
        routing(Attribute::List(ts)) == Err::<Routing, ExportError>(ExportError::Unpaired),
{
    reveal_strlit("get");
    reveal_strlit("set");
    assert("get"@[0] == 'g' && "set"@[0] == 's');
    let t = ts@;
    assert(t[0] == ts[0] && t[1] == ts[1] && t[2] == ts[2]);
    reveal_with_fuel(items, 2);
    reveal_with_fuel(segments, 2);
}

/// An attribute without arguments, or with none in its parentheses, is plain
/// field access; one with a value is no attribute.
pub proof fn bare_attributes_are_plain_access(ts: Vec<Token>)
    requires
        ts.len() == 0,
    ensures
        routing(Attribute::Bare) == Ok::<Routing, ExportError>(Routing { get: None, set: None }),
        routing(Attribute::List(ts)) == Ok::<Routing, ExportError>(
            Routing { get: None, set: None },
        ),
        routing(Attribute::NameValue) == Err::<Routing, ExportError>(ExportError::NotAList),
{
}

/// What does not fit is refused where it stands: a key that is neither of the
/// two, a path, a literal or anything else in place of one, a missing equals
/// sign, a missing name, a keyword for one, a missing comma.
pub proof fn misfits_are_refused_where_they_stand(ts: Vec<Token>, f: Seq<char>)
    requires
        ts.len() > 0,
    ensures
        ({
            let r = routing(Attribute::List(ts));
            let known = is_key(ts[0], "get"@) || is_key(ts[0], "set"@);
            let n = ts.len();
            &&& ts[0] is Word && !known && (n == 1 || !(ts[1] is PathSep)) ==> r == Err::<
                Routing,
                ExportError,
            >(ExportError::UnknownKey { from: 0, to: 1 })
            &&& ts[0] is Word && n > 1 && ts[1] is PathSep && (n == 2 || !(ts[2] is Word)) ==> r
                == Err::<Routing, ExportError>(ExportError::ExpectedSegment { at: 2 })
            &&& ts[0] is Word && n > 2 && ts[1] is PathSep && ts[2] is Word && (n == 3
                || !(ts[3] is PathSep)) ==> r == Err::<Routing, ExportError>(
                ExportError::UnknownKey { from: 0, to: 3 },
            )
            &&& ts[0] is PathSep && n == 1 ==> r == Err::<Routing, ExportError>(
                ExportError::ExpectedNested,
            )
            &&& ts[0] is Literal ==> r == Err::<Routing, ExportError>(
                ExportError::UnexpectedLiteral { at: 0 },
            )
            &&& ts[0] is Eq || ts[0] is Comma || ts[0] is Other ==> r == Err::<
                Routing,
                ExportError,
            >(ExportError::UnexpectedToken { at: 0 })
            &&& known && (n == 1 || (!(ts[1] is Eq) && !(ts[1] is PathSep))) ==> r == Err::<
                Routing,
                ExportError,
            >(ExportError::ExpectedEq { at: 1 })
            &&& known && n > 1 && ts[1] is Eq && (n == 2 || !(ts[2] is Word)) ==> r == Err::<
                Routing,
                ExportError,
            >(ExportError::ExpectedIdent { at: 2 })
            &&& known && n > 2 && ts[1] is Eq && ts[2] is Word && ts[2]->keyword ==> r == Err::<
                Routing,
                ExportError,
            >(ExportError::Keyword { at: 2 })
            &&& known && n > 3 && ts[1] is Eq && names_method(ts[2], f) && !(ts[3] is Comma) ==> r
                == Err::<Routing, ExportError>(ExportError::ExpectedComma { at: 3 })
        }),
{
    let t = ts@;
    assert(forall|i: int| 0 <= i < t.len() ==> t[i] == #[trigger] ts[i]);
    reveal_with_fuel(items, 2);
    reveal_with_fuel(segments, 3);
}

/// A property is reached through the method that is named for it, and as its
/// own field where none is; reading goes by the one name and writing by the
/// other.
pub proof fn properties_go_through_their_methods(p: PropModel, m: Seq<char>)
    ensures
        p.routing.get == Some(m) ==> p.reads() == AccessModel::Method(m),
        p.routing.get is None ==> p.reads() == AccessModel::Field(p.name),
        p.routing.set == Some(m) ==> p.writes() == AccessModel::Method(m),
        p.routing.set is None ==> p.writes() == AccessModel::Field(p.name),
{
}

/// Of the properties of one name the first is reached. Reading it reads as it
/// is read, and writing writes as it is written if the value is taken.
pub proof fn the_first_of_a_name_is_reached(
    ps: Seq<PropModel>,
    name: Seq<char>,
    i: int,
    takes: bool,
)
    requires
        0 <= i < ps.len(),
        ps[i].name == name,
        forall|k: int| 0 <= k < i ==> (#[trigger] ps[k]).name != name,
    ensures
        got(ps, name) == Some(ps[i].reads()),
        takes ==> written(ps, name, takes) == Some(ps[i].writes()),
        !takes ==> written(ps, name, takes) is None,
{
    lemma_first_is_named(ps, name, i);
}

proof fn lemma_first_is_named(ps: Seq<PropModel>, name: Seq<char>, i: int)
    requires
        0 <= i < ps.len(),
        ps[i].name == name,
        forall|k: int| 0 <= k < i ==> (#[trigger] ps[k]).name != name,
    ensures
        named(ps, name) == Some(ps[i]),
    decreases ps.len(),
{
    let front = ps.drop_last();
    if i < front.len() {
        assert forall|k: int| 0 <= k < i implies (#[trigger] front[k]).name != name by {
            assert(ps[k].name != name);
        }
        lemma_first_is_named(front, name, i);
    } else {
        lemma_named(front, name);
        match named(front, name) {
            Some(p) => {
                let k = choose|k: int| 0 <= k < front.len() && #[trigger] front[k] == p;
                assert(ps[k].name != name);
            },
            None => {},
        }
    }
}

/// Every refusal says what was expected, and where the arguments end too early
/// it says that first.
pub proof fn refusals_say_what_was_expected(ts: Seq<Token>, from: usize, to: usize, at: usize)
    ensures
        message_of(ExportError::NotNamedStruct, ts)
            == "#[derive(Export)] needs a struct with named fields"@,
        message_of(ExportError::UnknownKey { from, to }, ts) == "expected `get` or `set`"@,
        message_of(ExportError::Unpaired, ts)
            == "`get` and `set` come as a pair — give both, or neither for plain field access"@,
        message_of(ExportError::NotAList, ts) == "expected parentheses: #[export(...)]"@,
        message_of(ExportError::ExpectedNested, ts) == "unexpected end of input, "@
            + "expected nested attribute"@,
        message_of(ExportError::UnexpectedLiteral { at }, ts)
            == "unexpected literal in nested attribute, expected ident"@,
        message_of(ExportError::UnexpectedToken { at }, ts)
            == "unexpected token in nested attribute, expected ident"@,
        message_of(ExportError::ExpectedEq { at }, ts) == "expected `=`"@,
        message_of(ExportError::ExpectedComma { at }, ts) == "expected `,`"@,
        at < ts.len() ==> message_of(ExportError::ExpectedIdent { at }, ts)
            == "expected identifier"@,
        at >= ts.len() ==> message_of(ExportError::ExpectedIdent { at }, ts)
            == "unexpected end of input, "@ + "expected identifier"@,
        at < ts.len() ==> message_of(ExportError::ExpectedSegment { at }, ts)
            == "expected ident"@,
        at >= ts.len() ==> message_of(ExportError::ExpectedSegment { at }, ts)
            == "unexpected end of input, "@ + "expected ident"@,
        at < ts.len() && ts[at as int] is Word ==> message_of(ExportError::Keyword { at }, ts)
            == "expected identifier, found keyword `"@ + ts[at as int]->text@ + "`"@,
{
}

} // verus!
