use glassui::chat::AgentState;
use glassui::kinds::{IdCounter, MetricTrend, ToastType};
use glassui::status::{format_clock, AgentCard, MetricDisplay, StatusBar, StatusItem, Toast, ToastContainer};

#[test]
fn test_status_bar() {
    let mut bar = StatusBar::dashboard_default();
    bar.update_item("cpu", "45%");

    let item = bar.items.iter().find(|i| i.id == "cpu").unwrap();
    assert_eq!(item.value, "45%");
}

#[test]
fn test_toast() {
    let mut container = ToastContainer::new();
    container.success("Done", "Task completed");
    container.error("Failed", "Something went wrong");

    assert_eq!(container.toasts.len(), 2);
}

#[test]
fn test_agent_card() {
    let mut card = AgentCard::new("Assistant", "phi3");
    card.set_state(AgentState::Thinking);
    card.set_message_count(5);

    assert_eq!(card.state, AgentState::Thinking);
    assert_eq!(card.message_count, 5);
}

#[test]
fn update_item_changes_only_first_match() {
    let mut bar = StatusBar::new();
    bar.add_item(StatusItem::new("a", "A", "1"));
    bar.add_item(StatusItem::new("b", "B", "2"));
    bar.add_item(StatusItem::new("a", "A2", "3"));
    bar.update_item("a", "9");
    assert_eq!(bar.items[0].value, "9");
    assert_eq!(bar.items[1].value, "2");
    assert_eq!(bar.items[2].value, "3");
    bar.update_item("missing", "0");
    assert_eq!(bar.items.len(), 3);
}

#[test]
fn toast_ids_and_types() {
    let mut ids = IdCounter::new();
    let a = Toast::info(&mut ids, "i", "m");
    let b = Toast::warning(&mut ids, "w", "m");
    assert_eq!(a.id, 1);
    assert_eq!(b.id, 2);
    assert_eq!(b.toast_type, ToastType::Warning);
    assert_eq!(b.toast_type.icon(), "⚠");
    assert!(!a.dismissed);

    let mut c = ToastContainer::new();
    c.info("one", "");
    c.warning("two", "");
    c.error("three", "");
    assert_eq!(c.toasts[2].id, 3);
    assert_eq!(c.toasts[1].title, "two");
    assert_eq!(c.max_visible, 5);
}

#[test]
fn toast_click_dismiss_and_remove() {
    let mut c = ToastContainer::new();
    for _ in 0..7 {
        c.info("t", "m");
    }
    assert!(!c.click(None));
    assert!(!c.click(Some(5)));
    assert!(!c.toasts[5].dismissed);
    assert!(c.click(Some(1)));
    assert!(c.toasts[1].dismissed);
    c.dismiss_at(3);
    c.dismiss_at(40);
    c.remove_dismissed();
    let ids: Vec<u64> = c.toasts.iter().map(|t| t.id).collect();
    assert_eq!(ids, vec![1, 3, 5, 6, 7]);
    c.remove_dismissed();
    assert_eq!(c.toasts.len(), 5);
    c.clear();
    assert!(c.toasts.is_empty());
}

#[test]
fn agent_card_labels() {
    let mut card = AgentCard::new("A", "m");
    assert_eq!(card.state_label(), "Idle");
    assert_eq!(card.count_label(), "0 msgs");
    card.set_state(AgentState::Thinking);
    assert_eq!(card.state_label(), "Thinking");
    card.advance_thinking_dots();
    card.advance_thinking_dots();
    assert_eq!(card.state_label(), "Thinking..");
    card.advance_thinking_dots();
    card.advance_thinking_dots();
    assert_eq!(card.thinking_dots, 0);
    card.set_state(AgentState::Responding);
    card.advance_thinking_dots();
    assert_eq!(card.thinking_dots, 0);
    assert_eq!(card.state_text(), "Responding");
    card.set_message_count(12);
    assert_eq!(card.count_label(), "12 msgs");
}

#[test]
fn clock_text() {
    assert_eq!(format_clock(1, 5), "01:05");
    assert_eq!(format_clock(0, 0), "00:00");
    assert_eq!(format_clock(61, 1), "61:01");
    assert_eq!(format_clock(123, 59), "123:59");
}

#[test]
fn test_metric_display() {
    let metric = MetricDisplay::new("CPU", "45%").with_trend(MetricTrend::Up, "+5%");

    assert_eq!(metric.label, "CPU");
    assert_eq!(metric.trend, MetricTrend::Up);
}

#[test]
fn metric_value_and_trend_icon() {
    let mut metric = MetricDisplay::new("Mem", "1 GB");
    assert_eq!(metric.trend, MetricTrend::Stable);
    assert_eq!(metric.trend_value, "");
    metric.set_value("2 GB");
    assert_eq!(metric.value, "2 GB");
    assert_eq!(MetricTrend::Up.icon(), "↑");
    assert_eq!(MetricTrend::Stable.icon(), "→");
}
