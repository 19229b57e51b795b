//! Prices of models.

use crate::text::pattern::{
    after_last, begins_with, contains, differs_at, find_char, find_char_is_first, has_substring,
    occurs_at, rsplit_tail, starts_with,
};
use crate::text::{opt_text, str_eq};
use vstd::prelude::*;

verus! {

/// A price that is configured for the models whose names begin alike, in thousandths of a dollar for
/// a million tokens read and written.
#[derive(Debug)]
pub struct PriceRule {
    /// What the names begin with.
    pub prefix: String,
    /// What they must not hold, if anything.
    pub without: Option<String>,
    pub input: u64,
    pub output: u64,
}

/// Whether a rule is for a name.
pub open spec fn rule_fits(r: PriceRule, n: Seq<char>) -> bool {
    begins_with(n, r.prefix@) && (opt_text(r.without) matches Some(w) ==> !has_substring(n, w))
}

/// The prices in the first rule that is for a name.
pub open spec fn ruled_price(rules: Seq<PriceRule>, n: Seq<char>) -> Option<(u64, u64)>
    decreases rules.len(),
{
    if rules.len() == 0 {
        None
    } else if rule_fits(rules[0], n) {
        Some((rules[0].input, rules[0].output))
    } else {
        ruled_price(rules.skip(1), n)
    }
}

fn find_rule(rules: &Vec<PriceRule>, n: &str) -> (r: Option<(u64, u64)>)
    ensures
        r == ruled_price(rules@, n@),
{
    let mut i: usize = 0;
    assert(rules@.skip(0) =~= rules@);
    while i < rules.len()
        invariant
            i <= rules@.len(),
            ruled_price(rules@, n@) == ruled_price(rules@.skip(i as int), n@),
        decreases rules.len() - i,
    {
        proof {
            assert(rules@.skip(i as int)[0] == rules@[i as int]);
            assert(rules@.skip(i as int).skip(1) =~= rules@.skip(i + 1));
        }
        let rule = &rules[i];
        let kept_out = match &rule.without {
            Some(w) => contains(n, w.as_str()),
            None => false,
        };
        if starts_with(n, rule.prefix.as_str()) && !kept_out {
            return Some((rule.input, rule.output));
        }
        i = i + 1;
    }
    None
}

/// The built-in prices of a model by its name without the provider, in thousandths of a dollar for a
/// million tokens read and written. The first that fits counts; a model that is not known costs
/// nothing.
pub open spec fn price_of(n: Seq<char>) -> (u64, u64) {
    if begins_with(n, "gpt-4o"@) && !has_substring(n, "mini"@) {
        (2500, 10000)
    } else if begins_with(n, "gpt-4o-mini"@) {
        (150, 600)
    } else if begins_with(n, "gpt-4-turbo"@) {
        (10000, 30000)
    } else if n == "gpt-4"@ || begins_with(n, "gpt-4-0"@) {
        (30000, 60000)
    } else if begins_with(n, "o1"@) && !begins_with(n, "o1-mini"@) {
        (15000, 60000)
    } else if begins_with(n, "o1-mini"@) {
        (3000, 12000)
    } else if begins_with(n, "gemini-2.0-flash"@) {
        (100, 400)
    } else if begins_with(n, "gemini-1.5-pro"@) {
        (1250, 5000)
    } else if begins_with(n, "gemini-1.5-flash"@) {
        (75, 300)
    } else if begins_with(n, "deepseek-chat"@) || begins_with(n, "deepseek-v3"@) {
        (270, 1100)
    } else if begins_with(n, "deepseek-r1"@) || begins_with(n, "deepseek-reasoner"@) {
        (550, 2190)
    } else {
        (0, 0)
    }
}

fn builtin_price(n: &str) -> (r: (u64, u64))
    ensures
        r == price_of(n@),
{
    if starts_with(n, "gpt-4o") && !contains(n, "mini") {
        (2500, 10000)
    } else if starts_with(n, "gpt-4o-mini") {
        (150, 600)
    } else if starts_with(n, "gpt-4-turbo") {
        (10000, 30000)
    } else if str_eq(n, "gpt-4") || starts_with(n, "gpt-4-0") {
        (30000, 60000)
    } else if starts_with(n, "o1") && !starts_with(n, "o1-mini") {
        (15000, 60000)
    } else if starts_with(n, "o1-mini") {
        (3000, 12000)
    } else if starts_with(n, "gemini-2.0-flash") {
        (100, 400)
    } else if starts_with(n, "gemini-1.5-pro") {
        (1250, 5000)
    } else if starts_with(n, "gemini-1.5-flash") {
        (75, 300)
    } else if starts_with(n, "deepseek-chat") || starts_with(n, "deepseek-v3") {
        (270, 1100)
    } else if starts_with(n, "deepseek-r1") || starts_with(n, "deepseek-reasoner") {
        (550, 2190)
    } else {
        (0, 0)
    }
}

/// The prices of a model: those of the first configured rule for it, else the built-in ones. What
/// stands before the last slash of the model names the provider and does not count.
pub fn model_pricing(model: &str, rules: &Vec<PriceRule>) -> (r: (u64, u64))
    ensures
        r == (match ruled_price(rules@, after_last(model@, '/')) {
            Some(p) => p,
            None => price_of(after_last(model@, '/')),
        }),
{
    let name = rsplit_tail(model, '/');
    match find_rule(rules, name.as_str()) {
        Some(p) => p,
        None => builtin_price(name.as_str()),
    }
}

/// The provider in front of a model's name makes no difference to its price.
pub proof fn provider_does_not_count(provider: Seq<char>, name: Seq<char>)
    ensures
        after_last(provider + seq!['/'] + name, '/') == after_last(name, '/'),
    decreases provider.len(),
{
    let whole = provider + seq!['/'] + name;
    find_char_is_first(whole, '/');
    let k = find_char(whole, '/');
    assert(whole[provider.len() as int] == '/');
    assert(after_last(whole, '/') == after_last(whole.skip(k + 1), '/'));
    if k < provider.len() {
        assert(whole.skip(k + 1) =~= provider.skip(k + 1) + seq!['/'] + name);
        provider_does_not_count(provider.skip(k + 1), name);
    } else {
        assert(whole.skip(k + 1) =~= name);
    }
}

/// The first rule that is for a name gives its price, whatever rules come behind it.
pub proof fn first_rule_decides(rules: Seq<PriceRule>, n: Seq<char>, k: int)
    requires
        0 <= k <= rules.len(),
        forall|j: int| 0 <= j < k ==> !rule_fits(#[trigger] rules[j], n),
    ensures
        k < rules.len() && rule_fits(rules[k], n) ==> ruled_price(rules, n) == Some(
            (rules[k].input, rules[k].output),
        ),
        k == rules.len() ==> ruled_price(rules, n) is None,
    decreases rules.len(),
{
    if k > 0 {
        assert(!rule_fits(rules[0], n));
        let rest = rules.skip(1);
        assert forall|j: int| 0 <= j < k - 1 implies !rule_fits(#[trigger] rest[j], n) by {
            assert(rest[j] == rules[j + 1]);
        }
        first_rule_decides(rest, n, k - 1);
        if k < rules.len() {
            assert(rest[k - 1] == rules[k]);
        }
    }
}

/// A rule is for the names that begin with its prefix and do not hold what it keeps out.
pub proof fn rules_fit_by_prefix(r: PriceRule, rest: Seq<char>)
    ensures
        r.without is None ==> rule_fits(r, r.prefix@ + rest),
        r.without matches Some(w) ==> (rule_fits(r, r.prefix@ + rest) <==> !has_substring(
            r.prefix@ + rest,
            w@,
        )),
{
    let n = r.prefix@ + rest;
    assert(n.subrange(0, 0int + r.prefix@.len()) =~= r.prefix@);
}

/// Models of one family have one price, whatever stands behind the name of the family, and a model of
/// no family costs nothing.
pub proof fn families_have_prices(rest: Seq<char>)
    ensures
        price_of("gpt-4o-mini"@ + rest) == (150u64, 600u64),
        price_of("gpt-4-turbo"@ + rest) == (10000u64, 30000u64),
        price_of("gpt-4-0"@ + rest) == (30000u64, 60000u64),
        price_of("o1-mini"@ + rest) == (3000u64, 12000u64),
        price_of("gemini-2.0-flash"@ + rest) == (100u64, 400u64),
        price_of("gemini-1.5-pro"@ + rest) == (1250u64, 5000u64),
        price_of("gemini-1.5-flash"@ + rest) == (75u64, 300u64),
        price_of("deepseek-chat"@ + rest) == (270u64, 1100u64),
        price_of("deepseek-v3"@ + rest) == (270u64, 1100u64),
        price_of("deepseek-r1"@ + rest) == (550u64, 2190u64),
        price_of("deepseek-reasoner"@ + rest) == (550u64, 2190u64),
        price_of("gpt-4"@) == (30000u64, 60000u64),
        !has_substring("gpt-4o"@ + rest, "mini"@) ==> price_of("gpt-4o"@ + rest) == (2500u64, 10000u64),
        !begins_with("o1"@ + rest, "o1-mini"@) ==> price_of("o1"@ + rest) == (15000u64, 60000u64),
{
    reveal_strlit("gpt-4");
    reveal_strlit("mini");
    reveal_strlit("gpt-4o");
    reveal_strlit("gpt-4o-mini");
    reveal_strlit("gpt-4-turbo");
    reveal_strlit("gpt-4-0");
    reveal_strlit("o1");
    reveal_strlit("o1-mini");
    reveal_strlit("gemini-2.0-flash");
    reveal_strlit("gemini-1.5-pro");
    reveal_strlit("gemini-1.5-flash");
    reveal_strlit("deepseek-chat");
    reveal_strlit("deepseek-v3");
    reveal_strlit("deepseek-r1");
    reveal_strlit("deepseek-reasoner");
    {
        let n = "gpt-4o-mini"@ + rest;
        assert(n.subrange(0, 0int + "gpt-4o-mini"@.len()) =~= "gpt-4o-mini"@);
        assert(n.subrange(7, 11) =~= "mini"@);
        assert(occurs_at(n, "mini"@, 7));
    }
    {
        let n = "gpt-4-turbo"@ + rest;
        assert(n.subrange(0, 0int + "gpt-4-turbo"@.len()) =~= "gpt-4-turbo"@);
        differs_at(n, "gpt-4o"@, 5);
        differs_at(n, "gpt-4o-mini"@, 5);
    }
    {
        let n = "gpt-4-0"@ + rest;
        assert(n.subrange(0, 0int + "gpt-4-0"@.len()) =~= "gpt-4-0"@);
        differs_at(n, "gpt-4o"@, 5);
        differs_at(n, "gpt-4o-mini"@, 5);
        differs_at(n, "gpt-4-turbo"@, 6);
    }
    {
        let n = "o1-mini"@ + rest;
        assert(n.subrange(0, 0int + "o1-mini"@.len()) =~= "o1-mini"@);
        differs_at(n, "gpt-4o"@, 0);
        differs_at(n, "gpt-4o-mini"@, 0);
        differs_at(n, "gpt-4-turbo"@, 0);
        differs_at(n, "gpt-4-0"@, 0);
    }
    {
        let n = "gemini-2.0-flash"@ + rest;
        assert(n.subrange(0, 0int + "gemini-2.0-flash"@.len()) =~= "gemini-2.0-flash"@);
        differs_at(n, "gpt-4o"@, 1);
        differs_at(n, "gpt-4o-mini"@, 1);
        differs_at(n, "gpt-4-turbo"@, 1);
        differs_at(n, "gpt-4-0"@, 1);
        differs_at(n, "o1"@, 0);
        differs_at(n, "o1-mini"@, 0);
    }
    {
        let n = "gemini-1.5-pro"@ + rest;
        assert(n.subrange(0, 0int + "gemini-1.5-pro"@.len()) =~= "gemini-1.5-pro"@);
        differs_at(n, "gpt-4o"@, 1);
        differs_at(n, "gpt-4o-mini"@, 1);
        differs_at(n, "gpt-4-turbo"@, 1);
        differs_at(n, "gpt-4-0"@, 1);
        differs_at(n, "o1"@, 0);
        differs_at(n, "o1-mini"@, 0);
        differs_at(n, "gemini-2.0-flash"@, 7);
    }
    {
        let n = "gemini-1.5-flash"@ + rest;
        assert(n.subrange(0, 0int + "gemini-1.5-flash"@.len()) =~= "gemini-1.5-flash"@);
        differs_at(n, "gpt-4o"@, 1);
        differs_at(n, "gpt-4o-mini"@, 1);
        differs_at(n, "gpt-4-turbo"@, 1);
        differs_at(n, "gpt-4-0"@, 1);
        differs_at(n, "o1"@, 0);
        differs_at(n, "o1-mini"@, 0);
        differs_at(n, "gemini-2.0-flash"@, 7);
        differs_at(n, "gemini-1.5-pro"@, 11);
    }
    {
        let n = "deepseek-chat"@ + rest;
        assert(n.subrange(0, 0int + "deepseek-chat"@.len()) =~= "deepseek-chat"@);
        differs_at(n, "gpt-4o"@, 0);
        differs_at(n, "gpt-4o-mini"@, 0);
        differs_at(n, "gpt-4-turbo"@, 0);
        differs_at(n, "gpt-4-0"@, 0);
        differs_at(n, "o1"@, 0);
        differs_at(n, "o1-mini"@, 0);
        differs_at(n, "gemini-2.0-flash"@, 0);
        differs_at(n, "gemini-1.5-pro"@, 0);
        differs_at(n, "gemini-1.5-flash"@, 0);
    }
    {
        let n = "deepseek-v3"@ + rest;
        assert(n.subrange(0, 0int + "deepseek-v3"@.len()) =~= "deepseek-v3"@);
        differs_at(n, "gpt-4o"@, 0);
        differs_at(n, "gpt-4o-mini"@, 0);
        differs_at(n, "gpt-4-turbo"@, 0);
        differs_at(n, "gpt-4-0"@, 0);
        differs_at(n, "o1"@, 0);
        differs_at(n, "o1-mini"@, 0);
        differs_at(n, "gemini-2.0-flash"@, 0);
        differs_at(n, "gemini-1.5-pro"@, 0);
        differs_at(n, "gemini-1.5-flash"@, 0);
        differs_at(n, "deepseek-chat"@, 9);
    }
    {
        let n = "deepseek-r1"@ + rest;
        assert(n.subrange(0, 0int + "deepseek-r1"@.len()) =~= "deepseek-r1"@);
        differs_at(n, "gpt-4o"@, 0);
        differs_at(n, "gpt-4o-mini"@, 0);
        differs_at(n, "gpt-4-turbo"@, 0);
        differs_at(n, "gpt-4-0"@, 0);
        differs_at(n, "o1"@, 0);
        differs_at(n, "o1-mini"@, 0);
        differs_at(n, "gemini-2.0-flash"@, 0);
        differs_at(n, "gemini-1.5-pro"@, 0);
        differs_at(n, "gemini-1.5-flash"@, 0);
        differs_at(n, "deepseek-chat"@, 9);
        differs_at(n, "deepseek-v3"@, 9);
    }
    {
        let n = "deepseek-reasoner"@ + rest;
        assert(n.subrange(0, 0int + "deepseek-reasoner"@.len()) =~= "deepseek-reasoner"@);
        differs_at(n, "gpt-4o"@, 0);
        differs_at(n, "gpt-4o-mini"@, 0);
        differs_at(n, "gpt-4-turbo"@, 0);
        differs_at(n, "gpt-4-0"@, 0);
        differs_at(n, "o1"@, 0);
        differs_at(n, "o1-mini"@, 0);
        differs_at(n, "gemini-2.0-flash"@, 0);
        differs_at(n, "gemini-1.5-pro"@, 0);
        differs_at(n, "gemini-1.5-flash"@, 0);
        differs_at(n, "deepseek-chat"@, 9);
        differs_at(n, "deepseek-v3"@, 9);
        differs_at(n, "deepseek-r1"@, 10);
    }
    {
        let n = "gpt-4o"@ + rest;
        assert(n.subrange(0, 0int + "gpt-4o"@.len()) =~= "gpt-4o"@);
    }
    {
        let n = "o1"@ + rest;
        assert(n.subrange(0, 0int + "o1"@.len()) =~= "o1"@);
        differs_at(n, "gpt-4o"@, 0);
        differs_at(n, "gpt-4o-mini"@, 0);
        differs_at(n, "gpt-4-turbo"@, 0);
        differs_at(n, "gpt-4-0"@, 0);
    }
    {
        let n = "gpt-4"@;
        differs_at(n, "gpt-4o"@, 5);
        differs_at(n, "gpt-4o-mini"@, 5);
        differs_at(n, "gpt-4-turbo"@, 5);
    }
}

} // verus!
