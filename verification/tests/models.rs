use agenda::models::{AvailabilityQuery, Cliente};
use agenda::occupancy::{duracao_do_servico, total_minutos, ServiceDuration};

#[test]
fn new_clients_start_without_an_id() {
    let c = Cliente::new(
        "Teste Sem Agendamentos".to_string(),
        "5599999999999".to_string(),
        None,
    );
    assert!(c.id.is_none());
    assert_eq!(c.nome, "Teste Sem Agendamentos");
    assert_eq!(c.telefone, "5599999999999");
    assert!(c.email.is_none());
}

#[test]
fn availability_queries_default_to_thirty_fifteen_fifteen() {
    let q = AvailabilityQuery {
        date: "2025-12-01".to_string(),
        duracao_min: None,
        buffer_min: None,
        granularity_min: None,
    };
    assert_eq!(q.duracao(), 30);
    assert_eq!(q.buffer(), 15);
    assert_eq!(q.granularity(), 15);
    let q = AvailabilityQuery {
        date: "2025-12-01".to_string(),
        duracao_min: Some(60),
        buffer_min: Some(0),
        granularity_min: Some(5),
    };
    assert_eq!(q.duracao(), 60);
    assert_eq!(q.buffer(), 0);
    assert_eq!(q.granularity(), 5);
}

#[test]
fn catalog_lookups_resolve_by_reference() {
    let catalog = vec![
        ServiceDuration { id: 1, duracao_min: 30 },
        ServiceDuration { id: 5, duracao_min: 45 },
    ];
    assert_eq!(duracao_do_servico(&catalog, 5), Some(45));
    assert_eq!(duracao_do_servico(&catalog, 9), None);
    assert_eq!(total_minutos(&catalog, &vec![1, 5]), 75);
    assert_eq!(total_minutos(&catalog, &vec![1, 9]), 30);
    assert_eq!(total_minutos(&catalog, &Vec::new()), 0);
}
