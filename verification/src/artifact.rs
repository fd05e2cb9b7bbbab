//! Artifact kinds, artifact names and generation requests.
use vstd::prelude::*;
use crate::casing::{
    camel_case_of, kebab_case_of, pascal_case_of, snake_case_of, to_camel_case,
    to_kebab_case, to_pascal_case, to_snake_case,
};
use crate::error::{ForgeError, ForgeResult};
use crate::text::{
    is_ascii_char, is_ascii_digit, is_ascii_letter, is_ascii_lower, is_ascii_upper,
    chars_of, char_is_alphabetic, char_is_alphanumeric, concat, contains_char, is_alphabetic,
    is_alphanumeric, lowercase_of, ascii_lower, same_text, string_of, to_lowercase, utf8_len_exceeds,
};

verus! {

/// The kinds of NestJS artifact that can be generated.
#[derive(Debug, Clone, Copy, PartialEq, Eq, Structural)]
pub enum ArtifactKind {
    Module,
    Service,
    Controller,
    Class,
    Dto,
    Guard,
    Interceptor,
    Middleware,
    Pipe,
    Decorator,
    Strategy,
    Interface,
    Filter,
    Config,
    Resolver,
    Entity,
}

/// The kind that a lower-case name or alias stands for.
pub open spec fn kind_named(s: Seq<char>) -> Option<ArtifactKind> {
    if s == "module"@ || s == "mo"@ {
        Some(ArtifactKind::Module)
    } else if s == "service"@ || s == "s"@ {
        Some(ArtifactKind::Service)
    } else if s == "controller"@ || s == "co"@ {
        Some(ArtifactKind::Controller)
    } else if s == "class"@ || s == "cl"@ {
        Some(ArtifactKind::Class)
    } else if s == "dto"@ {
        Some(ArtifactKind::Dto)
    } else if s == "guard"@ || s == "gu"@ {
        Some(ArtifactKind::Guard)
    } else if s == "interceptor"@ || s == "itc"@ {
        Some(ArtifactKind::Interceptor)
    } else if s == "interface"@ || s == "itf"@ {
        Some(ArtifactKind::Interface)
    } else if s == "middleware"@ || s == "mi"@ {
        Some(ArtifactKind::Middleware)
    } else if s == "pipe"@ || s == "pi"@ {
        Some(ArtifactKind::Pipe)
    } else if s == "decorator"@ || s == "d"@ {
        Some(ArtifactKind::Decorator)
    } else if s == "strategy"@ {
        Some(ArtifactKind::Strategy)
    } else if s == "filter"@ || s == "f"@ {
        Some(ArtifactKind::Filter)
    } else if s == "config"@ {
        Some(ArtifactKind::Config)
    } else if s == "resolver"@ || s == "r"@ {
        Some(ArtifactKind::Resolver)
    } else if s == "entity"@ || s == "e"@ {
        Some(ArtifactKind::Entity)
    } else {
        None
    }
}

/// The template directory of each kind.
pub open spec fn template_name_of(k: ArtifactKind) -> Seq<char> {
    match k {
        ArtifactKind::Module => "module"@,
        ArtifactKind::Service => "service"@,
        ArtifactKind::Controller => "controller"@,
        ArtifactKind::Class => "class"@,
        ArtifactKind::Dto => "dto"@,
        ArtifactKind::Guard => "guard"@,
        ArtifactKind::Interceptor => "interceptor"@,
        ArtifactKind::Middleware => "middleware"@,
        ArtifactKind::Pipe => "pipe"@,
        ArtifactKind::Decorator => "decorator"@,
        ArtifactKind::Strategy => "strategy"@,
        ArtifactKind::Interface => "interface"@,
        ArtifactKind::Filter => "filter"@,
        ArtifactKind::Config => "config"@,
        ArtifactKind::Resolver => "resolver"@,
        ArtifactKind::Entity => "entity"@,
    }
}

/// Every name and alias that names a kind, in the order used for suggestions.
pub open spec fn known_names() -> Seq<Seq<char>> {
    seq![
        "module"@, "mo"@, "service"@, "s"@, "controller"@, "co"@, "class"@, "cl"@, "dto"@,
        "guard"@, "gu"@, "interceptor"@, "itc"@, "interface"@, "itf"@, "middleware"@, "mi"@,
        "pipe"@, "pi"@, "decorator"@, "d"@, "strategy"@, "filter"@, "f"@, "config"@,
        "resolver"@, "r"@, "entity"@, "e"@,
    ]
}

impl ArtifactKind {
    /// Parses a name or alias, in any letter case: the text is lower-cased
    /// with `str::to_lowercase` and then looked up.
    pub fn from_str(s: &str) -> (res: Option<Self>)
        ensures
            res == kind_named(lowercase_of(s@)),
            vstd::utf8::is_ascii_chars(s@) ==> res == kind_named(ascii_lower(s@)),
    {
        let lower = to_lowercase(s);
        let l = lower.as_str();
        if same_text(l, "module") || same_text(l, "mo") {
            Some(ArtifactKind::Module)
        } else if same_text(l, "service") || same_text(l, "s") {
            Some(ArtifactKind::Service)
        } else if same_text(l, "controller") || same_text(l, "co") {
            Some(ArtifactKind::Controller)
        } else if same_text(l, "class") || same_text(l, "cl") {
            Some(ArtifactKind::Class)
        } else if same_text(l, "dto") {
            Some(ArtifactKind::Dto)
        } else if same_text(l, "guard") || same_text(l, "gu") {
            Some(ArtifactKind::Guard)
        } else if same_text(l, "interceptor") || same_text(l, "itc") {
            Some(ArtifactKind::Interceptor)
        } else if same_text(l, "interface") || same_text(l, "itf") {
            Some(ArtifactKind::Interface)
        } else if same_text(l, "middleware") || same_text(l, "mi") {
            Some(ArtifactKind::Middleware)
        } else if same_text(l, "pipe") || same_text(l, "pi") {
            Some(ArtifactKind::Pipe)
        } else if same_text(l, "decorator") || same_text(l, "d") {
            Some(ArtifactKind::Decorator)
        } else if same_text(l, "strategy") {
            Some(ArtifactKind::Strategy)
        } else if same_text(l, "filter") || same_text(l, "f") {
            Some(ArtifactKind::Filter)
        } else if same_text(l, "config") {
            Some(ArtifactKind::Config)
        } else if same_text(l, "resolver") || same_text(l, "r") {
            Some(ArtifactKind::Resolver)
        } else if same_text(l, "entity") || same_text(l, "e") {
            Some(ArtifactKind::Entity)
        } else {
            None
        }
    }

    /// The template directory name for this artifact.
    pub fn template_name(&self) -> (res: &'static str)
        ensures
            res@ == template_name_of(*self),
    {
        match self {
            ArtifactKind::Module => "module",
            ArtifactKind::Service => "service",
            ArtifactKind::Controller => "controller",
            ArtifactKind::Class => "class",
            ArtifactKind::Dto => "dto",
            ArtifactKind::Guard => "guard",
            ArtifactKind::Interceptor => "interceptor",
            ArtifactKind::Middleware => "middleware",
            ArtifactKind::Pipe => "pipe",
            ArtifactKind::Decorator => "decorator",
            ArtifactKind::Strategy => "strategy",
            ArtifactKind::Interface => "interface",
            ArtifactKind::Filter => "filter",
            ArtifactKind::Config => "config",
            ArtifactKind::Resolver => "resolver",
            ArtifactKind::Entity => "entity",
        }
    }

    /// All valid names and aliases, used for "did you mean?" suggestions.
    pub fn all_names() -> (res: &'static [&'static str])
        ensures
            res@.map_values(|s: &str| s@) == known_names(),
    {
        let names: &'static [&'static str] = &[
            "module", "mo", "service", "s", "controller", "co", "class", "cl", "dto", "guard",
            "gu", "interceptor", "itc", "interface", "itf", "middleware", "mi", "pipe", "pi",
            "decorator", "d", "strategy", "filter", "f", "config", "resolver", "r", "entity", "e",
        ];
        assert(names@.map_values(|s: &str| s@) =~= known_names());
        names
    }
}

/// Everything needed to generate one artifact. The output path is the
/// directory under which the artifact's files (or its own folder) are placed.
#[derive(Debug, Clone)]
pub struct GenerationRequest {
    pub kind: ArtifactKind,
    pub name: ArtifactName,
    pub output_path: String,
    pub flat: bool,
    pub dry_run: bool,
    pub generate_spec: bool,
}

/// Parsing with `str::parse` accepts what `ArtifactKind::from_str` accepts.
impl std::str::FromStr for ArtifactKind {
    type Err = ();

    fn from_str(s: &str) -> Result<Self, ()>
        returns
            (match kind_named(lowercase_of(s@)) {
                Some(k) => Ok::<ArtifactKind, ()>(k),
                None => Err::<ArtifactKind, ()>(()),
            }),
    {
        match ArtifactKind::from_str(s) {
            Some(k) => Ok(k),
            None => Err(()),
        }
    }
}

/// A character allowed in an artifact name: alphanumeric, `-` or `_`.
pub open spec fn is_name_char(c: char) -> bool {
    char_is_alphanumeric(c) || c == '-' || c == '_'
}

/// The first character of `s` that is not allowed in a name, if any.
pub open spec fn first_invalid_char(s: Seq<char>) -> Option<char>
    decreases s.len(),
{
    if s.len() == 0 {
        None
    } else if !is_name_char(s[0]) {
        Some(s[0])
    } else {
        first_invalid_char(s.drop_first())
    }
}

pub open spec fn invalid_char_reason(c: char) -> Seq<char> {
    "name contains invalid '"@ + seq![c]
        + "' - only letters, digits, underscores, and hyphens are allowed."@
}

/// Why a raw name is refused, checked in this order; `None` when it is a
/// valid name. The length limit counts UTF-8 bytes, as `str::len` does.
pub open spec fn name_rejection(s: Seq<char>) -> Option<Seq<char>> {
    if s.len() == 0 {
        Some("name cannot be empty"@)
    } else if s.contains(' ') {
        Some("name cannot contain spaces: use hyphens instead."@)
    } else if !char_is_alphabetic(s[0]) {
        Some("name must start with a letter"@)
    } else if first_invalid_char(s) is Some {
        Some(invalid_char_reason(first_invalid_char(s)->0))
    } else if vstd::utf8::encode_utf8(s).len() > 128 {
        Some("name is too long (maximum 128 characters)"@)
    } else {
        None
    }
}

/// A name in the conventional shape: an ASCII letter followed by ASCII
/// letters, digits, `-` and `_`, at most 128 characters in all.
pub open spec fn is_conventional_name(s: Seq<char>) -> bool {
    &&& 0 < s.len() <= 128
    &&& is_ascii_letter(s[0])
    &&& forall|i: int|
        #![trigger s[i]]
        0 <= i < s.len() ==> is_ascii_letter(s[i]) || is_ascii_digit(s[i]) || s[i] == '-' || s[i]
            == '_'
}

/// `e` is the refusal of the raw name `name` for the given reason.
pub open spec fn is_invalid_name_error(e: ForgeError, name: Seq<char>, reason: Seq<char>) -> bool {
    match e {
        ForgeError::InvalidName { name: n, reason: r } => n@ == name && r@ == reason,
        _ => false,
    }
}

/// Checks a raw artifact name, reporting the first rule that it breaks.
fn validate_name(name: &str) -> (res: ForgeResult<()>)
    ensures
        match name_rejection(name@) {
            None => res is Ok,
            Some(reason) => res matches Err(e) && is_invalid_name_error(e, name@, reason),
        },
        is_conventional_name(name@) ==> res is Ok,
        name@.len() > 0 && is_ascii_digit(name@[0]) ==> res is Err,
{
    let chars = chars_of(name);
    if chars.len() == 0 {
        return Err(ForgeError::InvalidName {
            name: name.to_owned(),
            reason: "name cannot be empty".to_owned(),
        });
    }
    if contains_char(chars.as_slice(), ' ') {
        return Err(ForgeError::InvalidName {
            name: name.to_owned(),
            reason: "name cannot contain spaces: use hyphens instead.".to_owned(),
        });
    }
    // Must start with a unicode letter
    if !is_alphabetic(chars[0]) {
        return Err(ForgeError::InvalidName {
            name: name.to_owned(),
            reason: "name must start with a letter".to_owned(),
        });
    }
    // Only alphanumeric characters, hyphens and underscores are allowed
    let mut i: usize = 0;
    assert(chars@.skip(0) =~= chars@);
    while i < chars.len()
        invariant
            i <= chars@.len(),
            chars@ == name@,
            name@.len() > 0,
            !name@.contains(' '),
            char_is_alphabetic(name@[0]),
            is_conventional_name(name@) ==> forall|k: int| i <= k < name@.len() ==> is_ascii_char(#[trigger] name@[k]),
            first_invalid_char(name@) == first_invalid_char(chars@.skip(i as int)),
        decreases chars@.len() - i,
    {
        let c = chars[i];
        assert(chars@.skip(i as int)[0] == c);
        if !(is_alphanumeric(c) || c == '-' || c == '_') {
            let bad = string_of(&[c]);
            assert(bad@ =~= seq![c]);
            assert(first_invalid_char(name@) == Some(c));
            let reason = concat("name contains invalid '", bad.as_str());
            let reason = concat(
                reason.as_str(),
                "' - only letters, digits, underscores, and hyphens are allowed.",
            );
            assert(reason@ == invalid_char_reason(c));
            return Err(ForgeError::InvalidName { name: name.to_owned(), reason });
        }
        assert(chars@.skip(i as int).drop_first() =~= chars@.skip(i + 1));
        i = i + 1;
    }
    assert(chars@.skip(i as int) =~= Seq::<char>::empty());
    assert(first_invalid_char(name@) is None);
    proof {
        if is_conventional_name(name@) {
            assert(vstd::utf8::is_ascii_chars(name@));
            vstd::utf8::is_ascii_chars_encode_utf8(name@);
        }
    }
    if utf8_len_exceeds(chars.as_slice(), 128) {
        return Err(ForgeError::InvalidName {
            name: name.to_owned(),
            reason: "name is too long (maximum 128 characters)".to_owned(),
        });
    }
    Ok(())
}

/// All the name variants derived from the user's input.
#[derive(Debug, Clone)]
pub struct ArtifactName {
    pub raw: String,
    pub pascal: String,
    pub camel: String,
    pub snake: String,
    pub kebab: String,
}

impl ArtifactName {
    /// The variants of this name are those of the raw text `s`.
    pub open spec fn derived_from(&self, s: Seq<char>) -> bool {
        &&& self.raw@ == s
        &&& self.pascal@ == pascal_case_of(s)
        &&& self.camel@ == camel_case_of(s)
        &&& self.snake@ == snake_case_of(s)
        &&& self.kebab@ == kebab_case_of(s)
    }

    /// The shapes that the variants always have: kebab case holds no `_`,
    /// snake case no `-`, and when the raw text begins with an ASCII letter,
    /// PascalCase begins with a capital and camelCase with a small letter.
    pub open spec fn well_shaped(&self) -> bool {
        &&& !self.kebab@.contains('_')
        &&& !self.snake@.contains('-')
        &&& self.raw@.len() > 0 && is_ascii_letter(self.raw@[0]) ==> {
            &&& self.pascal@.len() > 0 && is_ascii_upper(self.pascal@[0])
            &&& self.camel@.len() > 0 && is_ascii_lower(self.camel@[0])
        }
    }

    /// Validates a raw name and derives its variants; the error names the
    /// first rule that the name breaks. Every conventional name is accepted,
    /// and a name that begins with a digit or holds a space is refused.
    pub fn parse(raw: &str) -> (res: ForgeResult<Self>)
        ensures
            match name_rejection(raw@) {
                None => res matches Ok(n) && n.derived_from(raw@),
                Some(reason) => res matches Err(e) && is_invalid_name_error(e, raw@, reason),
            },
            res matches Ok(n) ==> n.well_shaped(),
            is_conventional_name(raw@) ==> res is Ok,
            raw@.len() > 0 && is_ascii_digit(raw@[0]) ==> res is Err,
            raw@.contains(' ') ==> res is Err,
            // Only letters and digits (alphanumeric characters), `-` and `_`
            // make up an accepted name.
            res is Ok ==> forall|i: int| 0 <= i < raw@.len() ==> char_is_alphanumeric(#[trigger] raw@[i])
                || raw@[i] == '-' || raw@[i] == '_',
            // Any other character is refused, the first one being named.
            forall|i: int| 0 <= i < raw@.len() && !(char_is_alphanumeric(#[trigger] raw@[i]) || raw@[i] == '-'
                || raw@[i] == '_') && (forall|j: int| 0 <= j < i ==> (char_is_alphanumeric(#[trigger] raw@[j])
                || raw@[j] == '-' || raw@[j] == '_')) && !raw@.contains(' ') && char_is_alphabetic(raw@[0])
                ==> (res matches Err(ForgeError::InvalidName { name, reason }) && name@ == raw@ && reason@
                == "name contains invalid '"@ + seq![raw@[i]]
                + "' - only letters, digits, underscores, and hyphens are allowed."@),
    {
        proof {
            lemma_first_invalid_char(raw@);
        }
        validate_name(raw)?;
        Ok(Self::new_unchecked(raw))
    }

    /// Derives the variants of a name without validating it.
    pub fn new_unchecked(raw: &str) -> (res: Self)
        ensures
            res.derived_from(raw@),
            res.well_shaped(),
    {
        ArtifactName {
            raw: raw.to_owned(),
            pascal: to_pascal_case(raw),
            camel: to_camel_case(raw),
            snake: to_snake_case(raw),
            kebab: to_kebab_case(raw),
        }
    }
}

/// The first character not allowed in a name is found exactly when some
/// character is not alphanumeric, `-` or `_`, and it is the first such one.
pub proof fn lemma_first_invalid_char(s: Seq<char>)
    ensures
        first_invalid_char(s) is None <==> forall|i: int| 0 <= i < s.len() ==> char_is_alphanumeric(#[trigger] s[i])
            || s[i] == '-' || s[i] == '_',
        forall|i: int| 0 <= i < s.len() && !(char_is_alphanumeric(#[trigger] s[i]) || s[i] == '-' || s[i] == '_')
            && (forall|j: int| 0 <= j < i ==> (char_is_alphanumeric(#[trigger] s[j]) || s[j] == '-' || s[j] == '_'))
            ==> first_invalid_char(s) == Some(s[i]),
    decreases s.len(),
{
    if s.len() > 0 {
        let t = s.drop_first();
        lemma_first_invalid_char(t);
        assert forall|i: int| 0 < i < s.len() implies #[trigger] s[i] == t[i - 1] by {}
        if first_invalid_char(s) is None {
            assert forall|i: int| 0 <= i < s.len() implies char_is_alphanumeric(#[trigger] s[i]) || s[i] == '-'
                || s[i] == '_' by {
                if i > 0 {
                    assert(s[i] == t[i - 1]);
                }
            }
        } else if is_name_char(s[0]) {
            let k = choose|k: int| 0 <= k < t.len() && !(char_is_alphanumeric(#[trigger] t[k]) || t[k] == '-' || t[k] == '_');
            assert(s[k + 1] == t[k]);
        }
        assert forall|i: int| 0 <= i < s.len() && !(char_is_alphanumeric(#[trigger] s[i]) || s[i] == '-' || s[i] == '_')
            && (forall|j: int| 0 <= j < i ==> (char_is_alphanumeric(#[trigger] s[j]) || s[j] == '-' || s[j] == '_'))
            implies first_invalid_char(s) == Some(s[i]) by {
            if i > 0 {
                assert(s[0] == s[0]);
                assert(char_is_alphanumeric(s[0]) || s[0] == '-' || s[0] == '_');
                assert(t[i - 1] == s[i]);
                assert forall|j: int| 0 <= j < i - 1 implies (char_is_alphanumeric(#[trigger] t[j]) || t[j] == '-' || t[j] == '_') by {
                    assert(t[j] == s[j + 1]);
                }
            }
        }
    }
}

/// The names that `ArtifactKind::from_str` accepts (after lower-casing) are
/// exactly those that `ArtifactKind::all_names` lists, so every suggestion
/// drawn from that list can be parsed.
pub proof fn lemma_accepted_names_are_all_names(s: Seq<char>)
    ensures
        kind_named(s) is Some <==> known_names().contains(s),
{
    let names = known_names();
    if kind_named(s) is Some {
        if s == "module"@ { assert(names[0] == s); }
        else if s == "mo"@ { assert(names[1] == s); }
        else if s == "service"@ { assert(names[2] == s); }
        else if s == "s"@ { assert(names[3] == s); }
        else if s == "controller"@ { assert(names[4] == s); }
        else if s == "co"@ { assert(names[5] == s); }
        else if s == "class"@ { assert(names[6] == s); }
        else if s == "cl"@ { assert(names[7] == s); }
        else if s == "dto"@ { assert(names[8] == s); }
        else if s == "guard"@ { assert(names[9] == s); }
        else if s == "gu"@ { assert(names[10] == s); }
        else if s == "interceptor"@ { assert(names[11] == s); }
        else if s == "itc"@ { assert(names[12] == s); }
        else if s == "interface"@ { assert(names[13] == s); }
        else if s == "itf"@ { assert(names[14] == s); }
        else if s == "middleware"@ { assert(names[15] == s); }
        else if s == "mi"@ { assert(names[16] == s); }
        else if s == "pipe"@ { assert(names[17] == s); }
        else if s == "pi"@ { assert(names[18] == s); }
        else if s == "decorator"@ { assert(names[19] == s); }
        else if s == "d"@ { assert(names[20] == s); }
        else if s == "strategy"@ { assert(names[21] == s); }
        else if s == "filter"@ { assert(names[22] == s); }
        else if s == "f"@ { assert(names[23] == s); }
        else if s == "config"@ { assert(names[24] == s); }
        else if s == "resolver"@ { assert(names[25] == s); }
        else if s == "r"@ { assert(names[26] == s); }
        else if s == "entity"@ { assert(names[27] == s); }
        else { assert(names[28] == s); }
    }
    if names.contains(s) {
        let i = choose|i: int| 0 <= i < names.len() && names[i] == s;
        assert(kind_named(names[i]) is Some);
    }
}

/// Every kind is named by its template name, which is never empty: parsing a
/// template name gives back its kind.
pub proof fn lemma_template_name_round_trip(k: ArtifactKind)
    ensures
        kind_named(template_name_of(k)) == Some(k),
        template_name_of(k).len() > 0,
{
    // The names differ in length or in one of their first three characters.
    reveal_strlit("module");
    reveal_strlit("mo");
    reveal_strlit("service");
    reveal_strlit("s");
    reveal_strlit("controller");
    reveal_strlit("co");
    reveal_strlit("class");
    reveal_strlit("cl");
    reveal_strlit("dto");
    reveal_strlit("guard");
    reveal_strlit("gu");
    reveal_strlit("interceptor");
    reveal_strlit("itc");
    reveal_strlit("interface");
    reveal_strlit("itf");
    reveal_strlit("middleware");
    reveal_strlit("mi");
    reveal_strlit("pipe");
    reveal_strlit("pi");
    reveal_strlit("decorator");
    reveal_strlit("d");
    reveal_strlit("strategy");
    reveal_strlit("filter");
    reveal_strlit("f");
    reveal_strlit("config");
    reveal_strlit("resolver");
    reveal_strlit("r");
    reveal_strlit("entity");
    reveal_strlit("e");
    assert("module"@.len() == 6 && "module"@[0] == 'm' && "module"@[1] == 'o' && "module"@[2] == 'd');
    assert("mo"@.len() == 2 && "mo"@[0] == 'm' && "mo"@[1] == 'o');
    assert("service"@.len() == 7 && "service"@[0] == 's' && "service"@[1] == 'e' && "service"@[2] == 'r');
    assert("s"@.len() == 1 && "s"@[0] == 's');
    assert("controller"@.len() == 10 && "controller"@[0] == 'c' && "controller"@[1] == 'o' && "controller"@[2] == 'n');
    assert("co"@.len() == 2 && "co"@[0] == 'c' && "co"@[1] == 'o');
    assert("class"@.len() == 5 && "class"@[0] == 'c' && "class"@[1] == 'l' && "class"@[2] == 'a');
    assert("cl"@.len() == 2 && "cl"@[0] == 'c' && "cl"@[1] == 'l');
    assert("dto"@.len() == 3 && "dto"@[0] == 'd' && "dto"@[1] == 't' && "dto"@[2] == 'o');
    assert("guard"@.len() == 5 && "guard"@[0] == 'g' && "guard"@[1] == 'u' && "guard"@[2] == 'a');
    assert("gu"@.len() == 2 && "gu"@[0] == 'g' && "gu"@[1] == 'u');
    assert("interceptor"@.len() == 11 && "interceptor"@[0] == 'i' && "interceptor"@[1] == 'n' && "interceptor"@[2] == 't');
    assert("itc"@.len() == 3 && "itc"@[0] == 'i' && "itc"@[1] == 't' && "itc"@[2] == 'c');
    assert("interface"@.len() == 9 && "interface"@[0] == 'i' && "interface"@[1] == 'n' && "interface"@[2] == 't');
    assert("itf"@.len() == 3 && "itf"@[0] == 'i' && "itf"@[1] == 't' && "itf"@[2] == 'f');
    assert("middleware"@.len() == 10 && "middleware"@[0] == 'm' && "middleware"@[1] == 'i' && "middleware"@[2] == 'd');
    assert("mi"@.len() == 2 && "mi"@[0] == 'm' && "mi"@[1] == 'i');
    assert("pipe"@.len() == 4 && "pipe"@[0] == 'p' && "pipe"@[1] == 'i' && "pipe"@[2] == 'p');
    assert("pi"@.len() == 2 && "pi"@[0] == 'p' && "pi"@[1] == 'i');
    assert("decorator"@.len() == 9 && "decorator"@[0] == 'd' && "decorator"@[1] == 'e' && "decorator"@[2] == 'c');
    assert("d"@.len() == 1 && "d"@[0] == 'd');
    assert("strategy"@.len() == 8 && "strategy"@[0] == 's' && "strategy"@[1] == 't' && "strategy"@[2] == 'r');
    assert("filter"@.len() == 6 && "filter"@[0] == 'f' && "filter"@[1] == 'i' && "filter"@[2] == 'l');
    assert("f"@.len() == 1 && "f"@[0] == 'f');
    assert("config"@.len() == 6 && "config"@[0] == 'c' && "config"@[1] == 'o' && "config"@[2] == 'n');
    assert("resolver"@.len() == 8 && "resolver"@[0] == 'r' && "resolver"@[1] == 'e' && "resolver"@[2] == 's');
    assert("r"@.len() == 1 && "r"@[0] == 'r');
    assert("entity"@.len() == 6 && "entity"@[0] == 'e' && "entity"@[1] == 'n' && "entity"@[2] == 't');
    assert("e"@.len() == 1 && "e"@[0] == 'e');
}

} // verus!
