use ticket_service::{Ctx, Error, ModelController, Ticket, TicketForCreate};

fn tfc(title: &str) -> TicketForCreate {
    TicketForCreate { title: title.to_string() }
}

fn ticket(id: u64, cid: u64, title: &str) -> Ticket {
    Ticket { id, cid, title: title.to_string() }
}

#[test]
fn ctx_keeps_user_id() {
    assert_eq!(Ctx::new(42).user_id(), 42);
}

#[test]
fn create_assigns_sequential_ids_and_creator() {
    let mut mc = ModelController::new();
    let a = mc.create_ticket(Ctx::new(7), tfc("first")).unwrap();
    let b = mc.create_ticket(Ctx::new(8), tfc("second")).unwrap();
    assert_eq!(a, ticket(0, 7, "first"));
    assert_eq!(b, ticket(1, 8, "second"));
}

#[test]
fn read_after_create() {
    let mut mc = ModelController::new();
    let t = mc.create_ticket(Ctx::new(1), tfc("hello")).unwrap();
    assert_eq!(mc.get_ticket(Ctx::new(2), t.id), Ok(ticket(0, 1, "hello")));
}

#[test]
fn get_missing_ticket() {
    let mc = ModelController::new();
    assert_eq!(mc.get_ticket(Ctx::new(1), 0), Err(Error::TicketGetNotFound { id: 0 }));
    assert_eq!(mc.get_ticket(Ctx::new(1), u64::MAX), Err(Error::TicketGetNotFound { id: u64::MAX }));
}

#[test]
fn list_is_live_tickets_in_id_order() {
    let mut mc = ModelController::new();
    assert_eq!(mc.list_tickets(Ctx::new(1)), Ok(vec![]));
    for title in ["a", "b", "c"] {
        mc.create_ticket(Ctx::new(1), tfc(title)).unwrap();
    }
    mc.delete_ticket(Ctx::new(1), 1).unwrap();
    assert_eq!(
        mc.list_tickets(Ctx::new(1)),
        Ok(vec![ticket(0, 1, "a"), ticket(2, 1, "c")])
    );
    let d = mc.create_ticket(Ctx::new(3), tfc("d")).unwrap();
    assert_eq!(
        mc.list_tickets(Ctx::new(1)),
        Ok(vec![ticket(0, 1, "a"), ticket(2, 1, "c"), d])
    );
}

#[test]
fn update_changes_only_the_title() {
    let mut mc = ModelController::new();
    mc.create_ticket(Ctx::new(5), tfc("old")).unwrap();
    mc.create_ticket(Ctx::new(5), tfc("other")).unwrap();
    let u = mc.update_ticket(Ctx::new(9), 0, tfc("new"));
    assert_eq!(u, Ok(ticket(0, 5, "new")));
    assert_eq!(mc.get_ticket(Ctx::new(9), 0), Ok(ticket(0, 5, "new")));
    assert_eq!(mc.get_ticket(Ctx::new(9), 1), Ok(ticket(1, 5, "other")));
}

#[test]
fn update_missing_ticket() {
    let mut mc = ModelController::new();
    assert_eq!(
        mc.update_ticket(Ctx::new(1), 4, tfc("x")),
        Err(Error::TicketUpdateNotFound { id: 4 })
    );
    assert_eq!(mc.list_tickets(Ctx::new(1)), Ok(vec![]));
}

#[test]
fn delete_returns_ticket_then_not_found() {
    let mut mc = ModelController::new();
    mc.create_ticket(Ctx::new(2), tfc("gone")).unwrap();
    assert_eq!(mc.delete_ticket(Ctx::new(2), 0), Ok(ticket(0, 2, "gone")));
    assert_eq!(mc.delete_ticket(Ctx::new(2), 0), Err(Error::TicketDeleteNotFound { id: 0 }));
    assert_eq!(mc.get_ticket(Ctx::new(2), 0), Err(Error::TicketGetNotFound { id: 0 }));
    assert_eq!(
        mc.update_ticket(Ctx::new(2), 0, tfc("back")),
        Err(Error::TicketUpdateNotFound { id: 0 })
    );
}

#[test]
fn delete_missing_ticket() {
    let mut mc = ModelController::new();
    assert_eq!(mc.delete_ticket(Ctx::new(2), 7), Err(Error::TicketDeleteNotFound { id: 7 }));
}

#[test]
fn deleted_id_is_not_reused() {
    let mut mc = ModelController::new();
    mc.create_ticket(Ctx::new(1), tfc("a")).unwrap();
    mc.delete_ticket(Ctx::new(1), 0).unwrap();
    let t = mc.create_ticket(Ctx::new(1), tfc("b")).unwrap();
    assert_eq!(t.id, 1);
}

#[test]
fn ticket_clone_is_equal() {
    let t = ticket(3, 4, "clone me");
    assert_eq!(t.clone(), t);
}

#[test]
fn created_ticket_survives_a_run_of_other_operations() {
    let mut mc = ModelController::new();
    let t = mc.create_ticket(Ctx::new(1), tfc("keep")).unwrap();
    mc.create_ticket(Ctx::new(2), tfc("x")).unwrap();
    mc.update_ticket(Ctx::new(2), 1, tfc("y")).unwrap();
    mc.delete_ticket(Ctx::new(2), 1).unwrap();
    let _ = mc.update_ticket(Ctx::new(2), 5, tfc("z"));
    mc.create_ticket(Ctx::new(3), tfc("w")).unwrap();
    assert_eq!(mc.get_ticket(Ctx::new(9), t.id), Ok(t));
}

#[test]
fn deleted_id_stays_gone_through_a_run() {
    let mut mc = ModelController::new();
    mc.create_ticket(Ctx::new(1), tfc("a")).unwrap();
    mc.create_ticket(Ctx::new(1), tfc("b")).unwrap();
    mc.delete_ticket(Ctx::new(1), 0).unwrap();
    let mut ids = vec![];
    for title in ["c", "d", "e"] {
        ids.push(mc.create_ticket(Ctx::new(1), tfc(title)).unwrap().id);
        let _ = mc.update_ticket(Ctx::new(1), 0, tfc("again"));
        mc.update_ticket(Ctx::new(1), 1, tfc("b2")).unwrap();
    }
    assert_eq!(ids, vec![2, 3, 4]);
    assert_eq!(mc.get_ticket(Ctx::new(1), 0), Err(Error::TicketGetNotFound { id: 0 }));
    assert_eq!(mc.update_ticket(Ctx::new(1), 0, tfc("x")), Err(Error::TicketUpdateNotFound { id: 0 }));
    assert_eq!(mc.delete_ticket(Ctx::new(1), 0), Err(Error::TicketDeleteNotFound { id: 0 }));
}
