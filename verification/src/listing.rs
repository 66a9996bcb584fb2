//! The list of active rules.

use vstd::prelude::*;

use crate::numeral::decimal;
use crate::numeral::write_number;
use crate::patterns::build_rules;
use crate::patterns::rule_table;
use crate::patterns::rules_view;
use crate::patterns::Rule;
use crate::patterns::RuleView;
use crate::report::severity_of;
use crate::report::Severity;
use crate::rpc::meta_rules_view;
use crate::rpc::reputation_rules;
use crate::rpc::reputation_table;
use crate::rpc::MetaRule;
use crate::rpc::MetaRuleView;
use crate::scanner::metadata_rules;
use crate::scanner::metadata_table;
use crate::text::chars_of;
use crate::ui::badge;
use crate::ui::print_badge;

verus! {

/// `n` spaces.
pub open spec fn spaces(n: int) -> Seq<char> {
    if n > 0 {
        Seq::new(n as nat, |i: int| ' ')
    } else {
        Seq::empty()
    }
}

/// The text with spaces behind it, up to `width` characters in all.
pub open spec fn filled_right(s: Seq<char>, width: int) -> Seq<char> {
    s + spaces(width - s.len())
}

/// The text with spaces before it, up to `width` characters in all.
pub open spec fn filled_left(s: Seq<char>, width: int) -> Seq<char> {
    spaces(width - s.len()) + s
}

fn blanks(n: usize) -> (s: String)
    ensures
        s@ == spaces(n as int),
{
    let mut s: String = "".to_owned();
    proof {
        reveal_strlit("");
    }
    assert(s@ =~= spaces(0));
    let mut i: usize = 0;
    while i < n
        invariant
            i <= n,
            s@ == spaces(i as int),
        decreases n - i,
    {
        s.push(' ');
        assert(s@ =~= spaces(i + 1));
        i = i + 1;
    }
    s
}

fn missing(s: &str, width: usize) -> (n: usize)
    ensures
        n == (if s@.len() < width {
            width - s@.len()
        } else {
            0
        }),
{
    let c: Vec<char> = chars_of(s);
    width.saturating_sub(c.len())
}

fn fill_right(s: &str, width: usize) -> (r: String)
    ensures
        r@ == filled_right(s@, width as int),
{
    let mut r: String = s.to_owned();
    r.append(blanks(missing(s, width)).as_str());
    r
}

fn fill_left(s: &str, width: usize) -> (r: String)
    ensures
        r@ == filled_left(s@, width as int),
{
    let mut r: String = blanks(missing(s, width));
    r.append(s);
    r
}

/// The mark of an override gate.
pub open spec fn gate_column(override_gate: bool) -> Seq<char> {
    if override_gate {
        " ⛔gate"@
    } else {
        "      "@
    }
}

/// The line on a rule.
pub open spec fn rule_line(
    color: bool,
    id: Seq<char>,
    points: int,
    override_gate: bool,
    title: Seq<char>,
) -> Seq<char> {
    filled_right(badge(severity_of(points, override_gate), color), 18) + "  "@ + id + "  "@
        + filled_left(decimal(points), 2) + "pts "@ + gate_column(override_gate) + "  "@ + title
        + "\n"@
}

/// The line on a rule.
pub fn print_rule(
    color: bool,
    id: &str,
    points: u32,
    override_gate: bool,
    title: &str,
) -> (s: String)
    ensures
        s@ == rule_line(color, id@, points as int, override_gate, title@),
{
    let sev: Severity = Severity::from_points(points, override_gate);
    let mut s: String = fill_right(print_badge(sev, color).as_str(), 18);
    s.append("  ");
    s.append(id);
    s.append("  ");
    s.append(fill_left(write_number(points as u64).as_str(), 2).as_str());
    s.append("pts ");
    s.append(
        if override_gate {
            " ⛔gate"
        } else {
            "      "
        },
    );
    s.append("  ");
    s.append(title);
    s.append("\n");
    s
}

/// The lines on the first `n` regular-expression rules.
pub open spec fn rule_lines(rules: Seq<RuleView>, n: int, color: bool) -> Seq<char>
    decreases n,
{
    if n <= 0 {
        Seq::empty()
    } else {
        let r = rules[n - 1];
        rule_lines(rules, n - 1, color) + rule_line(
            color,
            r.id,
            r.points,
            r.override_gate,
            r.title,
        )
    }
}

/// The lines on the first `n` of the other rules.
pub open spec fn meta_rule_lines(rules: Seq<MetaRuleView>, n: int, color: bool) -> Seq<char>
    decreases n,
{
    if n <= 0 {
        Seq::empty()
    } else {
        let r = rules[n - 1];
        meta_rule_lines(rules, n - 1, color) + rule_line(
            color,
            r.id,
            r.points,
            r.override_gate,
            r.title,
        )
    }
}

/// The line above the list.
pub open spec fn rules_header(regex: int, metadata: int, reputation: int) -> Seq<char> {
    "aur-guard :: "@ + decimal(regex + metadata + reputation) + " active rules ("@ + decimal(regex)
        + " regex + "@ + decimal(metadata) + " metadata + "@ + decimal(reputation)
        + " reputation)\n"@
}

/// The list of active rules: the line above it, and a line on each rule.
#[verifier::ext_equal]
pub struct Listing {
    pub header: String,
    pub body: String,
}

fn print_rules(rules: &Vec<Rule>, color: bool) -> (s: String)
    ensures
        s@ == rule_lines(rules_view(rules@), rules@.len() as int, color),
{
    let ghost rs = rules_view(rules@);
    let mut s: String = "".to_owned();
    proof {
        reveal_strlit("");
    }
    let mut i: usize = 0;
    assert(s@ =~= rule_lines(rs, 0, color));
    while i < rules.len()
        invariant
            i <= rules@.len(),
            rs == rules_view(rules@),
            s@ == rule_lines(rs, i as int, color),
        decreases rules@.len() - i,
    {
        let r: &Rule = &rules[i];
        assert(rs[i as int] == rules@[i as int]@);
        s.append(print_rule(color, r.id, r.points, r.override_gate, r.title).as_str());
        i = i + 1;
    }
    s
}

fn print_meta_rules(rules: &Vec<MetaRule>, color: bool) -> (s: String)
    ensures
        s@ == meta_rule_lines(meta_rules_view(rules@), rules@.len() as int, color),
{
    let ghost rs = meta_rules_view(rules@);
    let mut s: String = "".to_owned();
    proof {
        reveal_strlit("");
    }
    let mut i: usize = 0;
    assert(s@ =~= meta_rule_lines(rs, 0, color));
    while i < rules.len()
        invariant
            i <= rules@.len(),
            rs == meta_rules_view(rules@),
            s@ == meta_rule_lines(rs, i as int, color),
        decreases rules@.len() - i,
    {
        let r: &MetaRule = &rules[i];
        assert(rs[i as int] == rules@[i as int]@);
        s.append(print_rule(color, r.id, r.points, r.override_gate, r.title).as_str());
        i = i + 1;
    }
    s
}

/// Lists every active detection rule.
pub fn list_rules(color: bool) -> (l: Listing)
    ensures
        l.header@ == rules_header(
            rule_table().len() as int,
            metadata_table().len() as int,
            reputation_table().len() as int,
        ),
        l.body@ == rule_lines(rule_table(), rule_table().len() as int, color) + meta_rule_lines(
            metadata_table(),
            metadata_table().len() as int,
            color,
        ) + meta_rule_lines(reputation_table(), reputation_table().len() as int, color),
{
    let regex: Vec<Rule> = build_rules();
    let metadata: Vec<MetaRule> = metadata_rules();
    let reputation: Vec<MetaRule> = reputation_rules();
    assert(rule_table().len() == regex@.len());
    assert(metadata_table().len() == metadata@.len());
    assert(reputation_table().len() == reputation@.len());
    let total: u64 = regex.len() as u64 + metadata.len() as u64 + reputation.len() as u64;
    let mut header: String = "aur-guard :: ".to_owned();
    header.append(write_number(total).as_str());
    header.append(" active rules (");
    header.append(write_number(regex.len() as u64).as_str());
    header.append(" regex + ");
    header.append(write_number(metadata.len() as u64).as_str());
    header.append(" metadata + ");
    header.append(write_number(reputation.len() as u64).as_str());
    header.append(" reputation)\n");
    let mut body: String = print_rules(&regex, color);
    body.append(print_meta_rules(&metadata, color).as_str());
    body.append(print_meta_rules(&reputation, color).as_str());
    Listing { header, body }
}

}
