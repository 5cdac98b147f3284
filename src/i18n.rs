use vstd::prelude::*;
use crate::steam::chars_of;
use crate::text::{owned, join3, decimal, digits};

verus! {

/// The languages of the user interface.
#[derive(Debug, Clone, Copy, PartialEq, Eq, Hash, Structural)]
pub enum Language {
    English,
    German,
    Spanish,
    French,
    Italian,
    Portuguese,
    Russian,
    Chinese,
    Japanese,
}

pub open spec fn code_of(l: Language) -> Seq<char> {
    match l {
        Language::English => "en"@,
        Language::German => "de"@,
        Language::Spanish => "es"@,
        Language::French => "fr"@,
        Language::Italian => "it"@,
        Language::Portuguese => "pt"@,
        Language::Russian => "ru"@,
        Language::Chinese => "zh"@,
        Language::Japanese => "ja"@,
    }
}

pub open spec fn name_of(l: Language) -> Seq<char> {
    match l {
        Language::English => "English"@,
        Language::German => "Deutsch"@,
        Language::Spanish => "Español"@,
        Language::French => "Français"@,
        Language::Italian => "Italiano"@,
        Language::Portuguese => "Português"@,
        Language::Russian => "Русский"@,
        Language::Chinese => "中文"@,
        Language::Japanese => "日本語"@,
    }
}

pub open spec fn all_languages() -> Seq<Language> {
    seq![
        Language::English,
        Language::German,
        Language::Spanish,
        Language::French,
        Language::Italian,
        Language::Portuguese,
        Language::Russian,
        Language::Chinese,
        Language::Japanese,
    ]
}

impl Language {
    /// The two-letter ISO 639-1 code.
    pub fn code(&self) -> (r: &'static str)
        ensures
            r@ == code_of(*self),
    {
        match self {
            Language::English => "en",
            Language::German => "de",
            Language::Spanish => "es",
            Language::French => "fr",
            Language::Italian => "it",
            Language::Portuguese => "pt",
            Language::Russian => "ru",
            Language::Chinese => "zh",
            Language::Japanese => "ja",
        }
    }

    /// The name of the language in itself.
    pub fn name(&self) -> (r: &'static str)
        ensures
            r@ == name_of(*self),
    {
        match self {
            Language::English => "English",
            Language::German => "Deutsch",
            Language::Spanish => "Español",
            Language::French => "Français",
            Language::Italian => "Italiano",
            Language::Portuguese => "Português",
            Language::Russian => "Русский",
            Language::Chinese => "中文",
            Language::Japanese => "日本語",
        }
    }

    /// Every language, in menu order.
    pub fn all() -> (r: Vec<Language>)
        ensures
            r@ == all_languages(),
    {
        let r = vec![
            Language::English,
            Language::German,
            Language::Spanish,
            Language::French,
            Language::Italian,
            Language::Portuguese,
            Language::Russian,
            Language::Chinese,
            Language::Japanese,
        ];
        assert(r@ =~= all_languages());
        r
    }
}

/// `s` with every occurrence of `pat` replaced by `with`, left to right, an
/// occurrence being skipped once it is replaced.
pub open spec fn replaced(s: Seq<char>, pat: Seq<char>, with: Seq<char>) -> Seq<char>
    decreases s.len(),
{
    if s.len() == 0 {
        Seq::empty()
    } else if pat.len() > 0 && s.len() >= pat.len() && s.subrange(0, pat.len() as int) == pat {
        with + replaced(s.subrange(pat.len() as int, s.len() as int), pat, with)
    } else {
        seq![s[0]] + replaced(s.subrange(1, s.len() as int), pat, with)
    }
}

/// The placeholder of the argument with index `i`: `{i}`.
pub open spec fn placeholder(i: nat) -> Seq<char> {
    "{"@ + digits(i) + "}"@
}

/// A template with the placeholders of the first `k` arguments filled in, in
/// the order of the arguments.
pub open spec fn filled(t: Seq<char>, args: Seq<Seq<char>>, k: nat) -> Seq<char>
    decreases k,
{
    if k == 0 || k > args.len() {
        t
    } else {
        replaced(filled(t, args, (k - 1) as nat), placeholder((k - 1) as nat), args[k - 1])
    }
}

fn starts_at(s: &Vec<char>, pat: &Vec<char>, i: usize) -> (r: bool)
    requires
        i <= s@.len(),
    ensures
        r == (s@.len() - i >= pat@.len() && s@.subrange(i as int, i + pat@.len()) == pat@),
{
    let n = s.len();
    if n - i < pat.len() {
        return false;
    }
    let mut k: usize = 0;
    while k < pat.len()
        invariant
            n == s@.len(),
            i <= n,
            s@.len() - i >= pat@.len(),
            k <= pat@.len(),
            forall|m: int| 0 <= m < k ==> s@[i + m] == pat@[m],
        decreases pat@.len() - k,
    {
        if s[i + k] != pat[k] {
            assert(s@.subrange(i as int, i + pat@.len())[k as int] != pat@[k as int]);
            return false;
        }
        k = k + 1;
    }
    assert(s@.subrange(i as int, i + pat@.len()) =~= pat@);
    true
}

fn replace_all(s: &str, pat: &str, with: &str) -> (r: String)
    ensures
        r@ == replaced(s@, pat@, with@),
{
    let c = chars_of(s);
    let p = chars_of(pat);
    let n = c.len();
    let mut r = String::new();
    let mut i: usize = 0;
    proof {
        assert(s@.subrange(0, n as int) =~= s@);
    }
    while i < n
        invariant
            c@ == s@,
            p@ == pat@,
            n == s@.len(),
            i <= n,
            r@ + replaced(s@.subrange(i as int, n as int), pat@, with@) == replaced(
                s@,
                pat@,
                with@,
            ),
        decreases n - i,
    {
        let ghost rest = s@.subrange(i as int, n as int);
        if p.len() > 0 && starts_at(&c, &p, i) {
            r.append(with);
            proof {
                assert(rest.subrange(0, pat@.len() as int) =~= s@.subrange(
                    i as int,
                    i + pat@.len(),
                ));
                assert(rest.subrange(pat@.len() as int, rest.len() as int) =~= s@.subrange(
                    i + pat@.len(),
                    n as int,
                ));
            }
            i = i + p.len();
        } else {
            r.append(s.substring_char(i, i + 1));
            proof {
                if pat@.len() > 0 && rest.len() >= pat@.len() {
                    assert(rest.subrange(0, pat@.len() as int) =~= s@.subrange(
                        i as int,
                        i + pat@.len(),
                    ));
                }
                assert(rest.subrange(1, rest.len() as int) =~= s@.subrange(i + 1, n as int));
                assert(s@.subrange(i as int, i + 1) =~= seq![rest[0]]);
            }
            i = i + 1;
        }
    }
    proof {
        assert(replaced(s@.subrange(n as int, n as int), pat@, with@) == Seq::<char>::empty());
        assert(r@ =~= r@ + Seq::<char>::empty());
    }
    r
}

/// Fills a template: each `{i}` becomes the argument with index `i`, the
/// arguments taken in order, each over the text the previous ones left.
pub fn format_string(template: &str, args: &[&str]) -> (r: String)
    ensures
        r@ == filled(template@, args@.map_values(|a: &str| a@), args@.len()),
{
    let ghost a = args@.map_values(|a: &str| a@);
    let mut r = owned(template);
    let mut i: usize = 0;
    while i < args.len()
        invariant
            i <= args@.len(),
            a == args@.map_values(|a: &str| a@),
            r@ == filled(template@, a, i as nat),
        decreases args@.len() - i,
    {
        let pat = join3("{", decimal(i as u64).as_str(), "}");
        r = replace_all(r.as_str(), pat.as_str(), args[i]);
        assert(a[i as int] == args@[i as int]@);
        i = i + 1;
    }
    r
}

} // verus!
