use empireants::ant::{Ant, AntState, Heuristic, Trail};
use empireants::simulation::exploration_bucket;
use empireants::text::push_decimal;
use empireants::web::{
    detect_content_type, parse_static_path, proxy_request, reason_phrase, response_body,
    response_head, route_metrics_request, route_ui_request, MetricsRoute, UiRoute,
};
use empireants::world::{Grid, Position};

#[test]
fn static_paths() {
    assert_eq!(parse_static_path("GET / HTTP/1.1"), "index.html");
    assert_eq!(parse_static_path("GET /index.html HTTP/1.1"), "index.html");
    assert_eq!(parse_static_path("GET /styles.css HTTP/1.1"), "styles.css");
    assert_eq!(parse_static_path("GET /app.js HTTP/1.1"), "app.js");
    assert_eq!(parse_static_path("GET /secret HTTP/1.1"), "index.html");
}

#[test]
fn content_types() {
    assert_eq!(detect_content_type(Some("html")), "text/html; charset=utf-8");
    assert_eq!(detect_content_type(Some("css")), "text/css; charset=utf-8");
    assert_eq!(detect_content_type(Some("js")), "application/javascript; charset=utf-8");
    assert_eq!(detect_content_type(Some("png")), "application/octet-stream");
    assert_eq!(detect_content_type(None), "application/octet-stream");
}

#[test]
fn routes() {
    assert_eq!(route_metrics_request("GET /healthz HTTP/1.1"), MetricsRoute::Health);
    assert_eq!(route_metrics_request("GET /metrics HTTP/1.1"), MetricsRoute::Metrics);
    assert_eq!(route_metrics_request("POST /metrics HTTP/1.1"), MetricsRoute::NotFound);
    assert_eq!(route_ui_request("GET /api/metrics HTTP/1.1"), UiRoute::ApiMetrics);
    assert_eq!(route_ui_request("GET /api/healthz HTTP/1.1"), UiRoute::ApiHealth);
    assert_eq!(route_ui_request("GET /app.js HTTP/1.1"), UiRoute::Static);
    assert_eq!(route_ui_request(""), UiRoute::NotFound);
}

#[test]
fn response_heads_and_bodies() {
    assert_eq!(reason_phrase(404), "Not Found");
    assert_eq!(reason_phrase(503), "Internal Server Error");
    assert_eq!(
        response_head(200, "text/plain; charset=utf-8", 3),
        "HTTP/1.1 200 OK\r\nContent-Type: text/plain; charset=utf-8\r\nContent-Length: 3\r\nConnection: close\r\n\r\n"
    );
    assert_eq!(
        proxy_request("127.0.0.1:9109", "/metrics"),
        "GET /metrics HTTP/1.1\r\nHost: 127.0.0.1:9109\r\nConnection: close\r\n\r\n"
    );
    assert_eq!(response_body("HTTP/1.1 200 OK\r\nA: b\r\n\r\nok\n"), "ok\n");
    assert_eq!(response_body("HTTP/1.1 200 OK\r\n\r\none\r\n\r\ntwo"), "one");
    assert_eq!(response_body("no blank line"), "");
}

#[test]
fn decimal_rendering() {
    let mut out = String::from("n=");
    push_decimal(&mut out, 0);
    out.push(',');
    push_decimal(&mut out, 18446744073709551615);
    assert_eq!(out, "n=0,18446744073709551615");
}

#[test]
fn exploration_bucket_is_a_per_mille_hash() {
    assert_eq!(exploration_bucket(0, 0), 345);
    assert_eq!(exploration_bucket(1, 0), (1103515245u64 + 12345) % 1000);
    assert_eq!(exploration_bucket(2, 7), ((2u64 * 1103515245) ^ 7).wrapping_add(12345) % 1000);
}

#[test]
fn candidates_follow_load_food_and_history() {
    let mut grid = Grid::new(8, 8);
    grid.set_food(5, 4, 3);
    grid.set_cell(4, 3, empireants::world::Cell::Obstacle);
    let mut ant = Ant::new(0, Position { x: 4, y: 4 });
    ant.last_position = Some(Position { x: 3, y: 4 });
    let c = ant.candidates(&grid);
    assert_eq!(c.len(), 3);
    assert_eq!(c[0].position, Position { x: 3, y: 4 });
    assert!(c[0].revisit);
    assert_eq!(c[0].trail, Trail::Food);
    assert_eq!(c[0].heuristic, Heuristic::NestDistance(1));
    assert_eq!(c[1].position, Position { x: 5, y: 4 });
    assert_eq!(c[1].heuristic, Heuristic::FoodSource);
    assert_eq!(c[2].position, Position { x: 4, y: 5 });
    ant.carrying_food = true;
    ant.state = AntState::Returning;
    let c = ant.candidates(&grid);
    assert_eq!(c[1].trail, Trail::Home);
    assert_eq!(c[1].heuristic, Heuristic::NestDistance(1));
}
