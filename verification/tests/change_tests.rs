use external_dns_pdns_webhook::changes::{plan_changes, BatchRun};
use external_dns_pdns_webhook::dns::{Changes, Endpoint};
use external_dns_pdns_webhook::pdns::resolve;

fn endpoint(name: &str, ty: &str, targets: &[&str], ttl: u32) -> Endpoint {
    Endpoint {
        dns_name: name.to_string(),
        record_type: ty.to_string(),
        targets: targets.iter().map(|t| t.to_string()).collect(),
        record_ttl: ttl,
        labels: Vec::new(),
        provider_specific: Vec::new(),
        set_identifier: String::new(),
    }
}

#[test]
fn plan_orders_delete_update_old_update_new_create() {
    let changes = Changes {
        create: vec![endpoint("c.example.com", "A", &["192.0.2.4"], 0)],
        update_old: vec![endpoint("uo.example.com", "A", &["192.0.2.2"], 0)],
        update_new: vec![endpoint("un.example.com", "A", &["192.0.2.3"], 0)],
        delete: vec![endpoint("d.example.com", "A", &["192.0.2.1"], 0)],
    };
    let plan = plan_changes(&changes, 300);
    assert_eq!(plan.len(), 4);
    assert_eq!(plan[0].fqdn, "d.example.com");
    assert_eq!(plan[0].rrset.changetype.as_deref(), Some("DELETE"));
    assert_eq!(plan[1].fqdn, "uo.example.com");
    assert_eq!(plan[1].rrset.changetype.as_deref(), Some("DELETE"));
    assert_eq!(plan[2].fqdn, "un.example.com");
    assert_eq!(plan[2].rrset.changetype.as_deref(), Some("REPLACE"));
    assert_eq!(plan[3].fqdn, "c.example.com");
    assert_eq!(plan[3].rrset.changetype.as_deref(), Some("REPLACE"));
}

#[test]
fn delete_entries_become_empty_delete_rrsets() {
    let changes = Changes {
        create: Vec::new(),
        update_old: Vec::new(),
        update_new: Vec::new(),
        delete: vec![endpoint("d.example.com", "CNAME", &["lb.example.com"], 60)],
    };
    let plan = plan_changes(&changes, 300);
    assert_eq!(plan.len(), 1);
    assert_eq!(plan[0].rrset.name, "d.example.com.");
    assert!(plan[0].rrset.records.is_empty());
    assert_eq!(plan[0].rrset.ttl, 0);
}

#[test]
fn create_entries_use_default_ttl_when_unset() {
    let changes = Changes {
        create: vec![endpoint("c.example.com", "A", &["192.0.2.4"], 0)],
        update_old: Vec::new(),
        update_new: Vec::new(),
        delete: Vec::new(),
    };
    let plan = plan_changes(&changes, 300);
    assert_eq!(plan[0].rrset.ttl, 300);
}

#[test]
fn failed_delete_prevents_the_create() {
    // delete X whose zone resolution fails, then create Y: Y is never attempted
    let changes = Changes {
        create: vec![endpoint("y.example.com", "A", &["192.0.2.4"], 0)],
        update_old: Vec::new(),
        update_new: Vec::new(),
        delete: vec![endpoint("x.unknown.test", "A", &["192.0.2.1"], 0)],
    };
    let zones = vec!["example.com.".to_string()];
    let mut run = BatchRun::start(plan_changes(&changes, 300));
    let mut attempted: Vec<String> = Vec::new();
    loop {
        let (fqdn, ok) = match run.next_op() {
            None => break,
            Some(op) => (op.fqdn.clone(), resolve(op.fqdn.as_str(), &zones).is_ok()),
        };
        attempted.push(fqdn);
        if ok {
            run.advance();
        } else {
            run.fail();
        }
    }
    assert_eq!(attempted, vec!["x.unknown.test"]);
}

#[test]
fn after_a_failure_no_op_is_handed_out() {
    let changes = Changes {
        create: vec![endpoint("b.example.com", "A", &["192.0.2.2"], 0)],
        update_old: Vec::new(),
        update_new: Vec::new(),
        delete: vec![endpoint("a.example.com", "A", &["192.0.2.1"], 0)],
    };
    let mut run = BatchRun::start(plan_changes(&changes, 300));
    assert!(run.next_op().is_some());
    run.fail();
    assert!(run.next_op().is_none());
    assert!(run.next_op().is_none());
}

#[test]
fn successful_run_hands_out_every_op_in_order() {
    let changes = Changes {
        create: vec![endpoint("b.example.com", "A", &["192.0.2.2"], 0)],
        update_old: Vec::new(),
        update_new: Vec::new(),
        delete: vec![endpoint("a.example.com", "A", &["192.0.2.1"], 0)],
    };
    let mut run = BatchRun::start(plan_changes(&changes, 300));
    let mut seen: Vec<String> = Vec::new();
    loop {
        let fqdn = match run.next_op() {
            None => break,
            Some(op) => op.fqdn.clone(),
        };
        seen.push(fqdn);
        run.advance();
    }
    assert_eq!(seen, vec!["a.example.com", "b.example.com"]);
}
