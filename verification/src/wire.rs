//! Wire representation of findings: a textual array with one object per
//! finding, each exposing its detection kind as `ID_SSN` or
//! `FIN_CREDIT_CARD`. An empty result renders as an empty array.

use crate::detector::Finding;
use crate::detector::FindingKind;
use crate::detector::scan_findings;
use crate::detector::scan_pii;
use crate::text::push_str_onto;
use vstd::prelude::*;

verus! {

/// The wire name of a detection kind.
pub open spec fn wire_label(k: FindingKind) -> Seq<char> {
    match k {
        FindingKind::SsnHeuristic => "ID_SSN"@,
        FindingKind::CreditCard => "FIN_CREDIT_CARD"@,
    }
}

/// One finding rendered as an object with a single `type` field.
pub open spec fn finding_json(k: FindingKind) -> Seq<char> {
    "{\"type\":\""@ + wire_label(k) + "\"}"@
}

/// The findings rendered in order, separated by commas.
pub open spec fn findings_json(fs: Seq<Finding>) -> Seq<char>
    decreases fs.len(),
{
    if fs.len() == 0 {
        Seq::empty()
    } else if fs.len() == 1 {
        finding_json(fs[0].kind)
    } else {
        findings_json(fs.drop_last()) + ","@ + finding_json(fs.last().kind)
    }
}

/// The whole response: the rendered findings between brackets.
pub open spec fn response_json(fs: Seq<Finding>) -> Seq<char> {
    "["@ + findings_json(fs) + "]"@
}

/// Renders findings as the textual response array, in order.
pub fn render_findings(findings: &Vec<Finding>) -> (r: String)
    ensures
        r@ == response_json(findings@),
{
    let mut out = String::new();
    push_str_onto(&mut out, "[");
    proof {
        assert(out@ =~= "["@ + findings_json(findings@.subrange(0, 0)));
    }
    let mut i: usize = 0;
    while i < findings.len()
        invariant
            i <= findings@.len(),
            out@ == "["@ + findings_json(findings@.subrange(0, i as int)),
        decreases findings@.len() - i,
    {
        if i > 0 {
            push_str_onto(&mut out, ",");
        }
        match findings[i].kind {
            FindingKind::SsnHeuristic => push_str_onto(&mut out, "{\"type\":\"ID_SSN\"}"),
            FindingKind::CreditCard => push_str_onto(&mut out, "{\"type\":\"FIN_CREDIT_CARD\"}"),
        }
        proof {
            reveal_strlit("{\"type\":\"");
            reveal_strlit("\"}");
            reveal_strlit("ID_SSN");
            reveal_strlit("FIN_CREDIT_CARD");
            reveal_strlit("{\"type\":\"ID_SSN\"}");
            reveal_strlit("{\"type\":\"FIN_CREDIT_CARD\"}");
            assert("{\"type\":\"ID_SSN\"}"@ =~= "{\"type\":\""@ + "ID_SSN"@ + "\"}"@);
            assert("{\"type\":\"FIN_CREDIT_CARD\"}"@ =~= "{\"type\":\""@ + "FIN_CREDIT_CARD"@
                + "\"}"@);
            let prefix = findings@.subrange(0, i as int);
            let here = findings@.subrange(0, i + 1 as int);
            assert(here.drop_last() =~= prefix);
            assert(here.last() == findings@[i as int]);
            assert(out@ =~= "["@ + findings_json(here));
        }
        i = i + 1;
    }
    push_str_onto(&mut out, "]");
    proof {
        assert(findings@.subrange(0, findings@.len() as int) =~= findings@);
        assert(out@ =~= response_json(findings@));
    }
    out
}

/// Services one request body end to end: scans the text and renders the
/// findings as the response array. Never fails; a body that matches
/// nothing yields the empty array.
pub fn handle_request(body: &str) -> (r: String)
    ensures
        r@ == response_json(scan_findings(body@)),
{
    let findings = scan_pii(body);
    render_findings(&findings)
}

} // verus!
