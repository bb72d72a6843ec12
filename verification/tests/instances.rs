use metrics_notifier::ec2_instance_client::{
    Ec2InstanceClient, Instance, InstancesRequest, MachineInstance, Reservation, PAGE_SIZE,
};
use metrics_notifier::error::MetricsNotifierError;

fn instance(id: &str) -> Instance {
    Instance { instance_id: Some(id.to_string()) }
}

fn reservation(ids: &[&str]) -> Reservation {
    Reservation { instances: Some(ids.iter().map(|id| instance(id)).collect()) }
}

#[test]
fn test_describe_all_instances() {
    let client = Ec2InstanceClient::new();
    let result =
        client.describe_all_instances(Ok(Some(vec![reservation(&["i-1234567890abcdef0"])])));

    assert_eq!(
        result.unwrap(),
        [MachineInstance { instance_id: "i-1234567890abcdef0".to_string() }]
    );
}

#[test]
fn instances_are_asked_for_twenty_at_a_time() {
    let client = Ec2InstanceClient::new();
    assert_eq!(PAGE_SIZE, 20);
    assert_eq!(client.instances_request(), InstancesRequest { max_results: Some(20) });
}

#[test]
fn instances_come_out_in_the_order_of_the_listing() {
    let client = Ec2InstanceClient::new();
    let listed =
        Some(vec![reservation(&["i-a", "i-b"]), reservation(&[]), reservation(&["i-c"])]);
    let machines = client.machine_instances(&listed).unwrap();
    let ids: Vec<&str> = machines.iter().map(|machine| machine.instance_id.as_str()).collect();
    assert_eq!(ids, ["i-a", "i-b", "i-c"]);
    assert_eq!(client.machine_instances(&Some(vec![])), Ok(vec![]));
}

#[test]
fn whatever_is_absent_fails_the_listing() {
    let client = Ec2InstanceClient::new();
    assert_eq!(client.machine_instances(&None), Err(MetricsNotifierError::NoneValue));
    let without_instances = Some(vec![reservation(&["i-a"]), Reservation { instances: None }]);
    assert_eq!(
        client.machine_instances(&without_instances),
        Err(MetricsNotifierError::NoneValue)
    );
    let without_id = Some(vec![Reservation {
        instances: Some(vec![instance("i-a"), Instance { instance_id: None }]),
    }]);
    assert_eq!(client.machine_instances(&without_id), Err(MetricsNotifierError::NoneValue));
}

#[test]
fn a_failed_service_fails_the_listing_in_its_own_words() {
    let client = Ec2InstanceClient::new();
    assert_eq!(
        client.describe_all_instances(Err("UnauthorizedOperation".to_string())),
        Err(MetricsNotifierError::DescribeInstancesError("UnauthorizedOperation".to_string()))
    );
    assert_eq!(client.describe_all_instances(Ok(None)), Err(MetricsNotifierError::NoneValue));
    assert_eq!(
        client.describe_all_instances(Ok(Some(vec![Reservation { instances: None }]))),
        Err(MetricsNotifierError::NoneValue)
    );
    assert_eq!(client.describe_all_instances(Ok(Some(vec![]))), Ok(vec![]));
}
