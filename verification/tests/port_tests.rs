use trop::port::{Port, PortRange};

#[test]
fn test_port_validation() {
    assert!(Port::try_from(0).is_err());
    assert!(Port::try_from(1).is_ok());
    assert!(Port::try_from(65535).is_ok());
    assert!(Port::try_from(80).is_ok());
    assert!(Port::try_from(443).is_ok());
    assert!(Port::try_from(8080).is_ok());
}

#[test]
fn test_port_invalid_error_message() {
    let err = Port::try_from(0).unwrap_err();
    assert_eq!(err.value, 0);
    assert!(err.reason.contains("invalid"));
}

#[test]
fn test_port_value() {
    let port = Port::try_from(8080).unwrap();
    assert_eq!(port.value(), 8080);
}

#[test]
fn test_port_is_privileged() {
    assert!(Port::try_from(80).unwrap().is_privileged());
    assert!(Port::try_from(443).unwrap().is_privileged());
    assert!(Port::try_from(1023).unwrap().is_privileged());
    assert!(!Port::try_from(1024).unwrap().is_privileged());
    assert!(!Port::try_from(8080).unwrap().is_privileged());
    assert!(!Port::try_from(65535).unwrap().is_privileged());
}

#[test]
fn test_port_display() {
    let port = Port::try_from(8080).unwrap();
    assert_eq!(port.to_display_string(), "8080");
}

#[test]
fn test_port_ordering() {
    let p1 = Port::try_from(80).unwrap();
    let p2 = Port::try_from(443).unwrap();
    let p3 = Port::try_from(8080).unwrap();
    assert!(p1 < p2);
    assert!(p2 < p3);
    assert!(p1 < p3);
}

#[test]
fn test_port_range_creation() {
    let min = Port::try_from(5000).unwrap();
    let max = Port::try_from(5010).unwrap();
    let range = PortRange::new(min, max).unwrap();
    assert_eq!(range.min(), min);
    assert_eq!(range.max(), max);
}

#[test]
fn test_port_range_invalid() {
    let min = Port::try_from(5010).unwrap();
    let max = Port::try_from(5000).unwrap();
    let result = PortRange::new(min, max);
    assert!(result.is_err());
    let err = result.unwrap_err();
    assert!(err.reason.contains("greater than or equal"));
}

#[test]
fn test_port_range_single_port() {
    let port = Port::try_from(5000).unwrap();
    let range = PortRange::new(port, port).unwrap();
    assert_eq!(range.len(), 1);
    assert!(range.contains(port));
}

#[test]
fn test_port_range_contains() {
    let min = Port::try_from(5000).unwrap();
    let max = Port::try_from(5010).unwrap();
    let range = PortRange::new(min, max).unwrap();
    assert!(range.contains(Port::try_from(5000).unwrap()));
    assert!(range.contains(Port::try_from(5005).unwrap()));
    assert!(range.contains(Port::try_from(5010).unwrap()));
    assert!(!range.contains(Port::try_from(4999).unwrap()));
    assert!(!range.contains(Port::try_from(5011).unwrap()));
}

#[test]
fn test_port_range_len() {
    let min = Port::try_from(5000).unwrap();
    let max = Port::try_from(5010).unwrap();
    let range = PortRange::new(min, max).unwrap();
    assert_eq!(range.len(), 11);
}

#[test]
fn test_port_range_display() {
    let min = Port::try_from(5000).unwrap();
    let max = Port::try_from(5010).unwrap();
    let range = PortRange::new(min, max).unwrap();
    assert_eq!(range.to_display_string(), "5000-5010");
}

#[test]
fn test_port_range_iterator() {
    let min = Port::try_from(5000).unwrap();
    let max = Port::try_from(5002).unwrap();
    let range = PortRange::new(min, max).unwrap();
    let ports: Vec<Port> = range.iter().collect();
    assert_eq!(ports.len(), 3);
    assert_eq!(ports[0].value(), 5000);
    assert_eq!(ports[1].value(), 5001);
    assert_eq!(ports[2].value(), 5002);
}

#[test]
fn test_port_range_iterator_exact_size() {
    let min = Port::try_from(5000).unwrap();
    let max = Port::try_from(5010).unwrap();
    let range = PortRange::new(min, max).unwrap();
    let mut iter = range.iter();
    assert_eq!(iter.len(), 11);
    iter.next();
    assert_eq!(iter.len(), 10);
    iter.next();
    assert_eq!(iter.len(), 9);
}

#[test]
fn test_port_range_into_iter() {
    let min = Port::try_from(5000).unwrap();
    let max = Port::try_from(5002).unwrap();
    let range = PortRange::new(min, max).unwrap();
    let ports: Vec<Port> = range.into_iter().collect();
    assert_eq!(ports.len(), 3);
}

#[test]
fn test_port_range_large() {
    let min = Port::try_from(1).unwrap();
    let max = Port::try_from(65535).unwrap();
    let range = PortRange::new(min, max).unwrap();
    assert_eq!(range.len(), 65535);
    assert!(range.contains(Port::try_from(32768).unwrap()));
}

#[test]
fn test_port_range_iterator_includes_max_port_without_overflow() {
    let min = Port::try_from(65534).unwrap();
    let max = Port::try_from(65535).unwrap();
    let range = PortRange::new(min, max).unwrap();
    let ports: Vec<Port> = range.iter().collect();
    assert_eq!(ports, vec![min, max]);
}

#[test]
fn test_port_checked_add_overflow() {
    let high = Port::try_from(65535).unwrap();
    assert!(high.checked_add(1).is_none());
    assert!(high.checked_add(100).is_none());
    let near_max = Port::try_from(65534).unwrap();
    assert_eq!(near_max.checked_add(1).unwrap().value(), 65535);
    assert!(near_max.checked_add(2).is_none());
}

#[test]
fn test_port_checked_sub_underflow() {
    let low = Port::try_from(1).unwrap();
    assert!(low.checked_sub(1).is_none());
    assert!(low.checked_sub(100).is_none());
    let near_min = Port::try_from(2).unwrap();
    assert_eq!(near_min.checked_sub(1).unwrap().value(), 1);
    assert!(near_min.checked_sub(2).is_none());
}
