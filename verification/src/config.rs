//! Process-wide configuration: the fixed account names, the commodity code
//! and the column layout of the rendered ledger.
use crate::tokens::lit;
use vstd::prelude::*;
use vstd::string::StringSliceAdditionalSpecFns;

verus! {

/// Fixed, deployment-level configuration. Account names and the commodity
/// are opaque byte strings; the core only copies them into postings and
/// rendered lines.
#[derive(Debug)]
pub struct Config {
    /// The institution account every transaction is balanced against.
    pub asset: Vec<u8>,
    /// Outstanding principal holdings.
    pub funds: Vec<u8>,
    /// The linked settlement bank account.
    pub bank: Vec<u8>,
    /// Interest and fees earned.
    pub income: Vec<u8>,
    /// Service fees paid.
    pub expense: Vec<u8>,
    /// Commodity code appended after every amount.
    pub commodity: Vec<u8>,
    /// Indent written before each account line.
    pub indent: Vec<u8>,
    /// Total width a posting line is aligned to.
    pub line_width: usize,
}

#[verifier::ext_equal]
pub struct ConfigV {
    pub asset: Seq<u8>,
    pub funds: Seq<u8>,
    pub bank: Seq<u8>,
    pub income: Seq<u8>,
    pub expense: Seq<u8>,
    pub commodity: Seq<u8>,
    pub indent: Seq<u8>,
    pub line_width: int,
}

impl View for Config {
    type V = ConfigV;

    open spec fn view(&self) -> ConfigV {
        ConfigV {
            asset: self.asset@,
            funds: self.funds@,
            bank: self.bank@,
            income: self.income@,
            expense: self.expense@,
            commodity: self.commodity@,
            indent: self.indent@,
            line_width: self.line_width as int,
        }
    }
}

/// Display width of the indent: a tab counts as eight columns.
pub open spec fn indent_display_width(c: ConfigV) -> int {
    if c.indent == "\t".spec_bytes() {
        8
    } else {
        c.indent.len() as int
    }
}

pub fn indent_width(cfg: &Config) -> (r: usize)
    ensures
        r as int == indent_display_width(cfg@),
{
    let tab = lit("\t");
    if crate::text::seq_eq(&cfg.indent, &tab) {
        8
    } else {
        cfg.indent.len()
    }
}

/// The standard deployment configuration.
pub open spec fn standard_config() -> ConfigV {
    ConfigV {
        asset: "assets:fundingsocieties".spec_bytes(),
        funds: "assets:funds:fundingsocieties".spec_bytes(),
        bank: "assets:bank:pbe".spec_bytes(),
        income: "income:interest".spec_bytes(),
        expense: "expenses:service".spec_bytes(),
        commodity: "MYR".spec_bytes(),
        indent: "\t".spec_bytes(),
        line_width: 62,
    }
}

impl Config {
    pub fn standard() -> (r: Config)
        ensures
            r@ == standard_config(),
    {
        let r = Config {
            asset: lit("assets:fundingsocieties"),
            funds: lit("assets:funds:fundingsocieties"),
            bank: lit("assets:bank:pbe"),
            income: lit("income:interest"),
            expense: lit("expenses:service"),
            commodity: lit("MYR"),
            indent: lit("\t"),
            line_width: 62,
        };
        r
    }
}

} // verus!
