//! Class identifiers, argument kinds and the static description of classes.
use vstd::prelude::*;

pub mod builtin_classes;
pub mod members;

pub use members::{
    BytecodeClass, Code, ExceptionTable, Field, FieldDescriptor, FieldKind, FieldValue, Method,
    MethodCode, NativeMethod,
};

verus! {

/// The abstract value of an [`ArrayName`]: the component type of an array class.
pub enum ArrayNameModel {
    Byte,
    Char,
    Double,
    Float,
    Int,
    Long,
    Class(Seq<char>),
    Short,
    Boolean,
}

/// The abstract value of a [`ClassName`].
pub enum ClassNameModel {
    Array { dimensions: usize, name: ArrayNameModel },
    Plain(Seq<char>),
}

/// The abstract value of a [`ClassIdentifier`]: the package segments and the class name.
pub struct ClassIdentifierModel {
    pub package: Seq<Seq<char>>,
    pub class_name: ClassNameModel,
}

/// Component type of an array class.
pub enum ArrayName {
    Byte,
    Char,
    Double,
    Float,
    Int,
    Long,
    Class(String),
    Short,
    Boolean,
}

/// Either an array class (with its number of dimensions) or a plain class.
pub enum ClassName {
    Array { dimensions: usize, name: ArrayName },
    Plain(String),
}

/// Fully qualified identifier of a class: its package segments and its name.
pub struct ClassIdentifier {
    pub package: Vec<String>,
    pub class_name: ClassName,
}

impl View for ArrayName {
    type V = ArrayNameModel;

    open spec fn view(&self) -> ArrayNameModel {
        match self {
            ArrayName::Byte => ArrayNameModel::Byte,
            ArrayName::Char => ArrayNameModel::Char,
            ArrayName::Double => ArrayNameModel::Double,
            ArrayName::Float => ArrayNameModel::Float,
            ArrayName::Int => ArrayNameModel::Int,
            ArrayName::Long => ArrayNameModel::Long,
            ArrayName::Class(s) => ArrayNameModel::Class(s@),
            ArrayName::Short => ArrayNameModel::Short,
            ArrayName::Boolean => ArrayNameModel::Boolean,
        }
    }
}

impl View for ClassName {
    type V = ClassNameModel;

    open spec fn view(&self) -> ClassNameModel {
        match self {
            ClassName::Array { dimensions, name } => ClassNameModel::Array {
                dimensions: *dimensions,
                name: name@,
            },
            ClassName::Plain(s) => ClassNameModel::Plain(s@),
        }
    }
}

/// The abstract package segments of a list of strings.
pub open spec fn strings_view(v: Seq<String>) -> Seq<Seq<char>> {
    v.map_values(|s: String| s@)
}

impl View for ClassIdentifier {
    type V = ClassIdentifierModel;

    open spec fn view(&self) -> ClassIdentifierModel {
        ClassIdentifierModel { package: strings_view(self.package@), class_name: self.class_name@ }
    }
}

/// Copies a list of strings, keeping every string's content.
pub fn clone_strings(v: &Vec<String>) -> (r: Vec<String>)
    ensures
        strings_view(r@) == strings_view(v@),
{
    let mut r: Vec<String> = Vec::new();
    let mut i: usize = 0;
    while i < v.len()
        invariant
            i <= v.len(),
            r@.len() == i,
            forall|j: int| 0 <= j < i ==> #[trigger] r@[j]@ == v@[j]@,
        decreases v.len() - i,
    {
        r.push(v[i].clone());
        i = i + 1;
    }
    assert(strings_view(r@) =~= strings_view(v@));
    r
}

/// Compares two lists of strings by content.
pub fn strings_equal(a: &Vec<String>, b: &Vec<String>) -> (r: bool)
    ensures
        r == (strings_view(a@) == strings_view(b@)),
{
    if a.len() != b.len() {
        assert(strings_view(a@).len() != strings_view(b@).len());
        return false;
    }
    let mut i: usize = 0;
    while i < a.len()
        invariant
            i <= a.len(),
            a.len() == b.len(),
            forall|j: int| 0 <= j < i ==> #[trigger] a@[j]@ == b@[j]@,
        decreases a.len() - i,
    {
        if a[i] != b[i] {
            assert(strings_view(a@)[i as int] != strings_view(b@)[i as int]);
            return false;
        }
        i = i + 1;
    }
    assert(strings_view(a@) =~= strings_view(b@));
    true
}

impl Clone for ArrayName {
    fn clone(&self) -> (r: Self)
        ensures
            r@ == self@,
    {
        match self {
            ArrayName::Byte => ArrayName::Byte,
            ArrayName::Char => ArrayName::Char,
            ArrayName::Double => ArrayName::Double,
            ArrayName::Float => ArrayName::Float,
            ArrayName::Int => ArrayName::Int,
            ArrayName::Long => ArrayName::Long,
            ArrayName::Class(s) => ArrayName::Class(s.clone()),
            ArrayName::Short => ArrayName::Short,
            ArrayName::Boolean => ArrayName::Boolean,
        }
    }
}

impl Clone for ClassName {
    fn clone(&self) -> (r: Self)
        ensures
            r@ == self@,
    {
        match self {
            ClassName::Array { dimensions, name } => ClassName::Array {
                dimensions: *dimensions,
                name: name.clone(),
            },
            ClassName::Plain(s) => ClassName::Plain(s.clone()),
        }
    }
}

impl Clone for ClassIdentifier {
    fn clone(&self) -> (r: Self)
        ensures
            r@ == self@,
    {
        ClassIdentifier { package: clone_strings(&self.package), class_name: self.class_name.clone() }
    }
}

impl ArrayName {
    /// Compares two component types by content.
    pub fn equals(&self, other: &ArrayName) -> (r: bool)
        ensures
            r == (self@ == other@),
    {
        match (self, other) {
            (ArrayName::Byte, ArrayName::Byte) => true,
            (ArrayName::Char, ArrayName::Char) => true,
            (ArrayName::Double, ArrayName::Double) => true,
            (ArrayName::Float, ArrayName::Float) => true,
            (ArrayName::Int, ArrayName::Int) => true,
            (ArrayName::Long, ArrayName::Long) => true,
            (ArrayName::Class(a), ArrayName::Class(b)) => *a == *b,
            (ArrayName::Short, ArrayName::Short) => true,
            (ArrayName::Boolean, ArrayName::Boolean) => true,
            _ => false,
        }
    }
}

impl ClassName {
    /// Compares two class names by content.
    pub fn equals(&self, other: &ClassName) -> (r: bool)
        ensures
            r == (self@ == other@),
    {
        match (self, other) {
            (
                ClassName::Array { dimensions: d1, name: n1 },
                ClassName::Array { dimensions: d2, name: n2 },
            ) => *d1 == *d2 && n1.equals(n2),
            (ClassName::Plain(a), ClassName::Plain(b)) => *a == *b,
            _ => false,
        }
    }
}

impl ClassIdentifier {
    /// Compares two identifiers by content (package segments and class name).
    pub fn equals(&self, other: &ClassIdentifier) -> (r: bool)
        ensures
            r == (self@ == other@),
    {
        strings_equal(&self.package, &other.package) && self.class_name.equals(&other.class_name)
    }

    /// Whether this identifier names an array class.
    pub open spec fn is_array(&self) -> bool {
        self.class_name is Array
    }

    /// Whether this identifier names an array class.
    pub fn is_array_identifier(&self) -> (r: bool)
        ensures
            r == self.is_array(),
    {
        match self.class_name {
            ClassName::Array { .. } => true,
            ClassName::Plain(_) => false,
        }
    }

    /// Returns the dimension and array class name of this identifier.
    pub fn get_array_class_name(&self) -> (r: (usize, &ArrayName))
        requires
            self.is_array(),
        ensures
            self.class_name matches ClassName::Array { dimensions, name } && r.0 == dimensions
                && r.1 == name,
    {
        match &self.class_name {
            ClassName::Array { dimensions, name } => (*dimensions, name),
            ClassName::Plain(_) => (0, &ArrayName::Byte),
        }
    }

    /// Converts this identifier into its package and array class name components.
    pub fn into_array_identifier(self) -> (r: (Vec<String>, (usize, ArrayName)))
        requires
            self.is_array(),
        ensures
            r.0 == self.package,
            self.class_name matches ClassName::Array { dimensions, name } && r.1.0 == dimensions
                && r.1.1 == name,
    {
        match self.class_name {
            ClassName::Array { dimensions, name } => (self.package, (dimensions, name)),
            ClassName::Plain(_) => (self.package, (0, ArrayName::Byte)),
        }
    }

    /// Returns the plain class name of this identifier.
    pub fn get_plain_name(&self) -> (r: &String)
        requires
            !self.is_array(),
        ensures
            self.class_name == ClassName::Plain(*r),
    {
        match &self.class_name {
            ClassName::Plain(name) => name,
            ClassName::Array { name, .. } => &self.package[0],
        }
    }

    /// Converts this identifier into its package and plain class name components.
    pub fn into_plain_identifier(self) -> (r: (Vec<String>, String))
        requires
            !self.is_array(),
        ensures
            r.0 == self.package,
            self.class_name == ClassName::Plain(r.1),
    {
        match self.class_name {
            ClassName::Plain(name) => (self.package, name),
            ClassName::Array { .. } => (self.package, String::new()),
        }
    }
}


/// The abstract value of a [`SimpleArgumentKind`].
pub enum SimpleArgumentKindModel {
    Byte,
    Char,
    Double,
    Float,
    Int,
    Long,
    Class(Seq<char>),
    Short,
    Boolean,
}

/// The abstract value of an [`ArgumentKind`].
pub enum ArgumentKindModel {
    Simple(SimpleArgumentKindModel),
    Array { dimensions: usize, kind: SimpleArgumentKindModel },
}

/// Type of a method parameter or return value, without array dimensions.
pub enum SimpleArgumentKind {
    Byte,
    Char,
    Double,
    Float,
    Int,
    Long,
    Class(String),
    Short,
    Boolean,
}

/// Type of a method parameter or return value.
pub enum ArgumentKind {
    Simple(SimpleArgumentKind),
    Array { dimensions: usize, kind: SimpleArgumentKind },
}

impl View for SimpleArgumentKind {
    type V = SimpleArgumentKindModel;

    open spec fn view(&self) -> SimpleArgumentKindModel {
        match self {
            SimpleArgumentKind::Byte => SimpleArgumentKindModel::Byte,
            SimpleArgumentKind::Char => SimpleArgumentKindModel::Char,
            SimpleArgumentKind::Double => SimpleArgumentKindModel::Double,
            SimpleArgumentKind::Float => SimpleArgumentKindModel::Float,
            SimpleArgumentKind::Int => SimpleArgumentKindModel::Int,
            SimpleArgumentKind::Long => SimpleArgumentKindModel::Long,
            SimpleArgumentKind::Class(s) => SimpleArgumentKindModel::Class(s@),
            SimpleArgumentKind::Short => SimpleArgumentKindModel::Short,
            SimpleArgumentKind::Boolean => SimpleArgumentKindModel::Boolean,
        }
    }
}

impl View for ArgumentKind {
    type V = ArgumentKindModel;

    open spec fn view(&self) -> ArgumentKindModel {
        match self {
            ArgumentKind::Simple(k) => ArgumentKindModel::Simple(k@),
            ArgumentKind::Array { dimensions, kind } => ArgumentKindModel::Array {
                dimensions: *dimensions,
                kind: kind@,
            },
        }
    }
}

/// The abstract values of a list of argument kinds.
pub open spec fn argument_kinds_view(v: Seq<ArgumentKind>) -> Seq<ArgumentKindModel> {
    v.map_values(|a: ArgumentKind| a@)
}

/// The abstract value of an optional argument kind.
pub open spec fn optional_kind_view(k: Option<ArgumentKind>) -> Option<ArgumentKindModel> {
    match k {
        Some(a) => Some(a@),
        None => None,
    }
}

impl Clone for SimpleArgumentKind {
    fn clone(&self) -> (r: Self)
        ensures
            r@ == self@,
    {
        match self {
            SimpleArgumentKind::Byte => SimpleArgumentKind::Byte,
            SimpleArgumentKind::Char => SimpleArgumentKind::Char,
            SimpleArgumentKind::Double => SimpleArgumentKind::Double,
            SimpleArgumentKind::Float => SimpleArgumentKind::Float,
            SimpleArgumentKind::Int => SimpleArgumentKind::Int,
            SimpleArgumentKind::Long => SimpleArgumentKind::Long,
            SimpleArgumentKind::Class(s) => SimpleArgumentKind::Class(s.clone()),
            SimpleArgumentKind::Short => SimpleArgumentKind::Short,
            SimpleArgumentKind::Boolean => SimpleArgumentKind::Boolean,
        }
    }
}

impl Clone for ArgumentKind {
    fn clone(&self) -> (r: Self)
        ensures
            r@ == self@,
    {
        match self {
            ArgumentKind::Simple(k) => ArgumentKind::Simple(k.clone()),
            ArgumentKind::Array { dimensions, kind } => ArgumentKind::Array {
                dimensions: *dimensions,
                kind: kind.clone(),
            },
        }
    }
}

impl SimpleArgumentKind {
    /// Compares two kinds by content.
    pub fn equals(&self, other: &SimpleArgumentKind) -> (r: bool)
        ensures
            r == (self@ == other@),
    {
        match (self, other) {
            (SimpleArgumentKind::Byte, SimpleArgumentKind::Byte) => true,
            (SimpleArgumentKind::Char, SimpleArgumentKind::Char) => true,
            (SimpleArgumentKind::Double, SimpleArgumentKind::Double) => true,
            (SimpleArgumentKind::Float, SimpleArgumentKind::Float) => true,
            (SimpleArgumentKind::Int, SimpleArgumentKind::Int) => true,
            (SimpleArgumentKind::Long, SimpleArgumentKind::Long) => true,
            (SimpleArgumentKind::Class(a), SimpleArgumentKind::Class(b)) => *a == *b,
            (SimpleArgumentKind::Short, SimpleArgumentKind::Short) => true,
            (SimpleArgumentKind::Boolean, SimpleArgumentKind::Boolean) => true,
            _ => false,
        }
    }
}

impl ArgumentKind {
    /// Compares two kinds by content.
    pub fn equals(&self, other: &ArgumentKind) -> (r: bool)
        ensures
            r == (self@ == other@),
    {
        match (self, other) {
            (ArgumentKind::Simple(a), ArgumentKind::Simple(b)) => a.equals(b),
            (
                ArgumentKind::Array { dimensions: d1, kind: k1 },
                ArgumentKind::Array { dimensions: d2, kind: k2 },
            ) => *d1 == *d2 && k1.equals(k2),
            _ => false,
        }
    }
}

/// Copies a list of argument kinds.
pub fn clone_argument_kinds(v: &Vec<ArgumentKind>) -> (r: Vec<ArgumentKind>)
    ensures
        argument_kinds_view(r@) == argument_kinds_view(v@),
{
    let mut r: Vec<ArgumentKind> = Vec::new();
    let mut i: usize = 0;
    while i < v.len()
        invariant
            i <= v.len(),
            r@.len() == i,
            forall|j: int| 0 <= j < i ==> #[trigger] r@[j]@ == v@[j]@,
        decreases v.len() - i,
    {
        r.push(v[i].clone());
        i = i + 1;
    }
    assert(argument_kinds_view(r@) =~= argument_kinds_view(v@));
    r
}

/// Compares two lists of argument kinds by content.
pub fn argument_kinds_equal(a: &Vec<ArgumentKind>, b: &Vec<ArgumentKind>) -> (r: bool)
    ensures
        r == (argument_kinds_view(a@) == argument_kinds_view(b@)),
{
    if a.len() != b.len() {
        assert(argument_kinds_view(a@).len() != argument_kinds_view(b@).len());
        return false;
    }
    let mut i: usize = 0;
    while i < a.len()
        invariant
            i <= a.len(),
            a.len() == b.len(),
            forall|j: int| 0 <= j < i ==> #[trigger] a@[j]@ == b@[j]@,
        decreases a.len() - i,
    {
        if !a[i].equals(&b[i]) {
            assert(argument_kinds_view(a@)[i as int] != argument_kinds_view(b@)[i as int]);
            return false;
        }
        i = i + 1;
    }
    assert(argument_kinds_view(a@) =~= argument_kinds_view(b@));
    true
}

/// Compares two optional argument kinds by content.
pub fn optional_kinds_equal(a: &Option<ArgumentKind>, b: &Option<ArgumentKind>) -> (r: bool)
    ensures
        r == (optional_kind_view(*a) == optional_kind_view(*b)),
{
    match (a, b) {
        (Some(x), Some(y)) => x.equals(y),
        (None, None) => true,
        _ => false,
    }
}


/// The segments of `s` separated by `/`.
pub open spec fn split_slash(s: Seq<char>) -> Seq<Seq<char>>
    decreases s.len(),
{
    if s.len() == 0 {
        seq![Seq::empty()]
    } else {
        let segs = split_slash(s.drop_last());
        if s.last() == '/' {
            segs.push(Seq::empty())
        } else {
            segs.update(segs.len() - 1, segs.last().push(s.last()))
        }
    }
}

/// Splitting always yields at least one segment.
pub proof fn lemma_split_slash_nonempty(s: Seq<char>)
    ensures
        split_slash(s).len() >= 1,
    decreases s.len(),
{
    if s.len() > 0 {
        lemma_split_slash_nonempty(s.drop_last());
    }
}

/// The package segments and the simple name of a `/`-separated qualified name.
pub open spec fn qualified_name(s: Seq<char>) -> (Seq<Seq<char>>, Seq<char>) {
    let segs = split_slash(s);
    (segs.drop_last(), segs.last())
}

/// The number of `[` that `s` begins with, counted from position `i`.
pub open spec fn leading_brackets(s: Seq<char>, i: int) -> int
    decreases s.len() - i,
{
    if 0 <= i < s.len() && s[i] == '[' {
        leading_brackets(s, i + 1)
    } else {
        i
    }
}

/// The array component type that a one-letter descriptor stands for.
pub open spec fn primitive_array_name(c: char) -> Option<ArrayNameModel> {
    if c == 'B' {
        Some(ArrayNameModel::Byte)
    } else if c == 'C' {
        Some(ArrayNameModel::Char)
    } else if c == 'D' {
        Some(ArrayNameModel::Double)
    } else if c == 'F' {
        Some(ArrayNameModel::Float)
    } else if c == 'I' {
        Some(ArrayNameModel::Int)
    } else if c == 'J' {
        Some(ArrayNameModel::Long)
    } else if c == 'S' {
        Some(ArrayNameModel::Short)
    } else if c == 'Z' {
        Some(ArrayNameModel::Boolean)
    } else {
        None
    }
}

/// The identifier that a class name of the class file format denotes, such as
/// `java/lang/String`, `[I` or `[[Ljava/lang/String;`.
pub open spec fn spec_class_identifier(s: Seq<char>) -> Option<ClassIdentifierModel> {
    let d = leading_brackets(s, 0);
    if d == 0 {
        let (package, name) = qualified_name(s);
        Some(ClassIdentifierModel { package, class_name: ClassNameModel::Plain(name) })
    } else {
        let rest = s.subrange(d, s.len() as int);
        if rest.len() == 1 && primitive_array_name(rest[0]) is Some {
            Some(
                ClassIdentifierModel {
                    package: Seq::empty(),
                    class_name: ClassNameModel::Array {
                        dimensions: d as usize,
                        name: primitive_array_name(rest[0])->0,
                    },
                },
            )
        } else if rest.len() >= 2 && rest[0] == 'L' && rest.last() == ';' {
            let (package, name) = qualified_name(rest.subrange(1, rest.len() - 1));
            Some(
                ClassIdentifierModel {
                    package,
                    class_name: ClassNameModel::Array {
                        dimensions: d as usize,
                        name: ArrayNameModel::Class(name),
                    },
                },
            )
        } else {
            None
        }
    }
}

proof fn lemma_leading_brackets_bounds(s: Seq<char>, i: int)
    requires
        0 <= i <= s.len(),
    ensures
        i <= leading_brackets(s, i) <= s.len(),
        forall|j: int| i <= j < leading_brackets(s, i) ==> s[j] == '[',
        leading_brackets(s, i) < s.len() ==> s[leading_brackets(s, i)] != '[',
    decreases s.len() - i,
{
    if i < s.len() && s[i] == '[' {
        lemma_leading_brackets_bounds(s, i + 1);
    }
}

/// Splits the characters `s[from..to]` at every `/` into package segments and a simple name.
fn split_qualified(s: &str, from: usize, to: usize) -> (r: (Vec<String>, String))
    requires
        from <= to <= s@.len(),
    ensures
        strings_view(r.0@) == qualified_name(s@.subrange(from as int, to as int)).0,
        r.1@ == qualified_name(s@.subrange(from as int, to as int)).1,
{
    let ghost t = s@.subrange(from as int, to as int);
    let mut segs: Vec<String> = Vec::new();
    let mut start = from;
    let mut i = from;
    assert(t.take(0) =~= Seq::<char>::empty());
    assert(strings_view(segs@) =~= Seq::<Seq<char>>::empty());
    assert(s@.subrange(start as int, i as int) =~= Seq::<char>::empty());
    assert(strings_view(segs@).push(s@.subrange(start as int, i as int)) =~= seq![Seq::<char>::empty()]);
    while i < to
        invariant
            from <= start <= i <= to <= s@.len(),
            t == s@.subrange(from as int, to as int),
            split_slash(t.take(i - from)) == strings_view(segs@).push(
                s@.subrange(start as int, i as int),
            ),
        decreases to - i,
    {
        assert(t.take(i - from + 1).drop_last() =~= t.take(i - from));
        assert(t.take(i - from + 1).last() == s@[i as int]);
        let c = s.get_char(i);
        if c == '/' {
            let seg = s.substring_char(start, i).to_owned();
            let ghost old_segs = strings_view(segs@);
            segs.push(seg);
            assert(strings_view(segs@) =~= old_segs.push(seg@));
            start = i + 1;
            assert(s@.subrange(start as int, i + 1) =~= Seq::<char>::empty());
        } else {
            assert(s@.subrange(start as int, i + 1) =~= s@.subrange(start as int, i as int).push(c));
        }
        i = i + 1;
    }
    assert(t.take(to - from) =~= t);
    let name = s.substring_char(start, to).to_owned();
    assert(strings_view(segs@) =~= strings_view(segs@).push(name@).drop_last());
    (segs, name)
}

/// The identifier that a class name of the class file format denotes, such as
/// `java/lang/String`, `[I` or `[[Ljava/lang/String;`; `None` for a malformed array name.
pub fn parse_class_identifier(name: &str) -> (r: Option<ClassIdentifier>)
    ensures
        r is Some <==> spec_class_identifier(name@) is Some,
        r matches Some(id) ==> spec_class_identifier(name@) == Some(id@),
{
    let n = name.unicode_len();
    let ghost s = name@;
    let mut d: usize = 0;
    proof {
        lemma_leading_brackets_bounds(s, 0);
    }
    while d < n && name.get_char(d) == '['
        invariant
            n == s.len(),
            s == name@,
            d <= n,
            leading_brackets(s, 0) == leading_brackets(s, d as int),
        decreases n - d,
    {
        d = d + 1;
    }
    assert(leading_brackets(s, d as int) == d);
    if d == 0 {
        let (package, simple) = split_qualified(name, 0, n);
        assert(s.subrange(0, n as int) =~= s);
        return Some(ClassIdentifier { package, class_name: ClassName::Plain(simple) });
    }
    let ghost rest = s.subrange(d as int, n as int);
    if n - d == 1 {
        let c = name.get_char(d);
        assert(rest[0] == c);
        let prim = if c == 'B' {
            Some(ArrayName::Byte)
        } else if c == 'C' {
            Some(ArrayName::Char)
        } else if c == 'D' {
            Some(ArrayName::Double)
        } else if c == 'F' {
            Some(ArrayName::Float)
        } else if c == 'I' {
            Some(ArrayName::Int)
        } else if c == 'J' {
            Some(ArrayName::Long)
        } else if c == 'S' {
            Some(ArrayName::Short)
        } else if c == 'Z' {
            Some(ArrayName::Boolean)
        } else {
            None
        };
        match prim {
            Some(p) => {
                let id = ClassIdentifier {
                    package: Vec::new(),
                    class_name: ClassName::Array { dimensions: d, name: p },
                };
                assert(strings_view(id.package@) =~= Seq::<Seq<char>>::empty());
                return Some(id);
            },
            None => {
                return None;
            },
        }
    }
    if n - d >= 2 && name.get_char(d) == 'L' && name.get_char(n - 1) == ';' {
        assert(rest[0] == 'L');
        assert(rest.last() == ';');
        let (package, simple) = split_qualified(name, d + 1, n - 1);
        assert(rest.subrange(1, rest.len() - 1) =~= s.subrange(d + 1, n - 1));
        return Some(
            ClassIdentifier {
                package,
                class_name: ClassName::Array { dimensions: d, name: ArrayName::Class(simple) },
            },
        );
    }
    None
}


/// The segments joined by `/`.
pub open spec fn joined(segments: Seq<Seq<char>>) -> Seq<char>
    decreases segments.len(),
{
    if segments.len() == 0 {
        Seq::empty()
    } else if segments.len() == 1 {
        segments[0]
    } else {
        joined(segments.drop_last()) + seq!['/'] + segments.last()
    }
}

/// `n` opening brackets.
pub open spec fn brackets(n: nat) -> Seq<char>
    decreases n,
{
    if n == 0 {
        Seq::empty()
    } else {
        brackets((n - 1) as nat) + seq!['[']
    }
}

/// How a class name is written after the package: the class name itself, or the letter of a
/// primitive array component.
pub open spec fn class_name_text(name: ClassNameModel) -> Seq<char> {
    match name {
        ClassNameModel::Plain(n) => n,
        ClassNameModel::Array { name, .. } => match name {
            ArrayNameModel::Byte => seq!['B'],
            ArrayNameModel::Char => seq!['C'],
            ArrayNameModel::Double => seq!['D'],
            ArrayNameModel::Float => seq!['F'],
            ArrayNameModel::Int => seq!['I'],
            ArrayNameModel::Long => seq!['J'],
            ArrayNameModel::Class(n) => n,
            ArrayNameModel::Short => seq!['S'],
            ArrayNameModel::Boolean => seq!['Z'],
        },
    }
}

/// How an identifier is written: one bracket per array dimension, the package segments
/// joined by `/` and followed by `/` (when there are any), then the class name.
pub open spec fn identifier_text(id: ClassIdentifierModel) -> Seq<char> {
    let dims: nat = match id.class_name {
        ClassNameModel::Array { dimensions, .. } => dimensions as nat,
        _ => 0,
    };
    brackets(dims) + (if id.package.len() > 0 {
        joined(id.package) + seq!['/']
    } else {
        Seq::empty()
    }) + class_name_text(id.class_name)
}

/// Joining the segments of a name at `/` gives the name back.
pub proof fn lemma_joined_split_slash(s: Seq<char>)
    ensures
        joined(split_slash(s)) == s,
    decreases s.len(),
{
    if s.len() > 0 {
        let t = s.drop_last();
        lemma_joined_split_slash(t);
        lemma_split_slash_nonempty(t);
        let segs = split_slash(t);
        if s.last() == '/' {
            assert(segs.push(Seq::empty()).drop_last() =~= segs);
            assert(t + seq!['/'] + Seq::<char>::empty() =~= s);
        } else {
            lemma_joined_push_last(segs, s.last());
            assert(t.push(s.last()) =~= s);
        }
    } else {
        assert(split_slash(s) == seq![Seq::<char>::empty()]);
    }
}

/// Appending a character to the last segment appends it to the joined name.
proof fn lemma_joined_push_last(segs: Seq<Seq<char>>, c: char)
    requires
        segs.len() >= 1,
    ensures
        joined(segs.update(segs.len() - 1, segs.last().push(c))) == joined(segs).push(c),
{
    let u = segs.update(segs.len() - 1, segs.last().push(c));
    if segs.len() >= 2 {
        assert(u.drop_last() =~= segs.drop_last());
        assert(joined(u) == joined(u.drop_last()) + seq!['/'] + u.last());
        assert(joined(segs.drop_last()) + seq!['/'] + segs.last().push(c) =~= (joined(segs.drop_last())
            + seq!['/'] + segs.last()).push(c));
    }
}

/// `n` opening brackets are the first `n` characters of a name that begins with them.
proof fn lemma_brackets_prefix(s: Seq<char>, n: nat)
    requires
        n <= s.len(),
        forall|j: int| 0 <= j < n ==> s[j] == '[',
    ensures
        brackets(n) == s.take(n as int),
    decreases n,
{
    if n > 0 {
        lemma_brackets_prefix(s, (n - 1) as nat);
        assert(s.take(n as int) =~= s.take(n - 1) + seq!['[']);
    } else {
        assert(s.take(0) =~= Seq::<char>::empty());
    }
}

/// Writing an identifier read from a name gives the name back, for plain class names and
/// arrays of a primitive type. (An array of a class, such as `[Ljava/lang/String;`, is
/// written without its `L` and `;`.)
pub proof fn lemma_identifier_text_round_trip(s: Seq<char>)
    requires
        s.len() <= usize::MAX,
        spec_class_identifier(s) is Some,
        !((spec_class_identifier(s)->0).class_name matches ClassNameModel::Array {
            name: ArrayNameModel::Class(_),
            ..
        }),
    ensures
        identifier_text(spec_class_identifier(s)->0) == s,
{
    let id = spec_class_identifier(s)->0;
    let d = leading_brackets(s, 0);
    lemma_leading_brackets_bounds(s, 0);
    if d == 0 {
        let segs = split_slash(s);
        lemma_split_slash_nonempty(s);
        lemma_joined_split_slash(s);
        assert(brackets(0) =~= Seq::<char>::empty());
        if segs.len() == 1 {
            assert(segs.drop_last().len() == 0);
            assert(identifier_text(id) =~= segs.last());
        } else {
            assert(joined(segs) == joined(segs.drop_last()) + seq!['/'] + segs.last());
            assert(identifier_text(id) =~= joined(segs.drop_last()) + seq!['/'] + segs.last());
        }
    } else {
        let rest = s.subrange(d, s.len() as int);
        lemma_brackets_prefix(s, d as nat);
        assert(rest.len() == 1);
        assert(class_name_text(id.class_name) == seq![rest[0]]);
        assert(id.package.len() == 0);
        assert(id.class_name->Array_dimensions as nat == d as nat);
        assert(identifier_text(id) == brackets(d as nat) + Seq::<char>::empty() + seq![rest[0]]);
        assert(identifier_text(id) =~= s.take(d) + seq![rest[0]]);
        assert(s.take(d) + seq![rest[0]] =~= s);
    }
}

impl ClassIdentifier {
    /// The identifier as it is written, such as `java/lang/String` or `[[I`.
    pub fn display_text(&self) -> (r: String)
        ensures
            r@ == identifier_text(self@),
    {
        let mut out = String::new();
        let dims: usize = match &self.class_name {
            ClassName::Array { dimensions, .. } => *dimensions,
            ClassName::Plain(_) => 0,
        };
        let mut k: usize = 0;
        assert(out@ =~= brackets(0));
        while k < dims
            invariant
                k <= dims,
                out@ == brackets(k as nat),
            decreases dims - k,
        {
            crate::classloader::file_parser::push_char(&mut out, '[');
            k = k + 1;
        }
        let ghost prefix = out@;
        let ghost pv = strings_view(self.package@);
        let n = self.package.len();
        if n > 0 {
            let mut j: usize = 0;
            assert(prefix + joined(pv.take(0)) =~= out@);
            while j < n
                invariant
                    0 < n,
                    n == pv.len(),
                    pv == strings_view(self.package@),
                    j <= n,
                    out@ == prefix + joined(pv.take(j as int)) + (if j > 0 && j < n {
                        seq!['/']
                    } else {
                        Seq::<char>::empty()
                    }),
                decreases n - j,
            {
                let ghost before = joined(pv.take(j as int));
                crate::text::push_text(&mut out, self.package[j].as_str());
                assert(pv.take(j + 1).drop_last() =~= pv.take(j as int));
                if j + 1 < n {
                    crate::classloader::file_parser::push_char(&mut out, '/');
                }
                j = j + 1;
                if j > 1 {
                    assert(joined(pv.take(j as int)) == joined(pv.take(j - 1)) + seq!['/'] + pv[j - 1]);
                } else {
                    assert(joined(pv.take(j as int)) == pv[0]);
                }
                assert(out@ =~= prefix + joined(pv.take(j as int)) + (if j > 0 && j < n {
                    seq!['/']
                } else {
                    Seq::<char>::empty()
                }));
            }
            assert(pv.take(n as int) =~= pv);
            crate::classloader::file_parser::push_char(&mut out, '/');
        }
        let ghost middle = out@;
        match &self.class_name {
            ClassName::Plain(name) => crate::text::push_text(&mut out, name.as_str()),
            ClassName::Array { name, .. } => match name {
                ArrayName::Byte => crate::classloader::file_parser::push_char(&mut out, 'B'),
                ArrayName::Char => crate::classloader::file_parser::push_char(&mut out, 'C'),
                ArrayName::Double => crate::classloader::file_parser::push_char(&mut out, 'D'),
                ArrayName::Float => crate::classloader::file_parser::push_char(&mut out, 'F'),
                ArrayName::Int => crate::classloader::file_parser::push_char(&mut out, 'I'),
                ArrayName::Long => crate::classloader::file_parser::push_char(&mut out, 'J'),
                ArrayName::Class(c) => crate::text::push_text(&mut out, c.as_str()),
                ArrayName::Short => crate::classloader::file_parser::push_char(&mut out, 'S'),
                ArrayName::Boolean => crate::classloader::file_parser::push_char(&mut out, 'Z'),
            },
        }
        assert(out@ =~= identifier_text(self@));
        out
    }
}

} // verus!
