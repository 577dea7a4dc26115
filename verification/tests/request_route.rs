use riwaq_host::api::org_of_path;
use riwaq_host::api::playground_endpoint;
use riwaq_host::api::route;
use riwaq_host::api::Route;

#[test]
fn tenant_is_the_third_part_of_the_path() {
    assert_eq!(org_of_path("/api/acme"), "acme");
    assert_eq!(org_of_path("/api/acme/"), "acme");
    assert_eq!(org_of_path("/api/acme/more/parts"), "acme");
    assert_eq!(org_of_path("/playground/acme"), "acme");
    assert_eq!(org_of_path("a/b/c"), "c");
}

#[test]
fn path_without_a_tenant() {
    assert_eq!(org_of_path(""), "");
    assert_eq!(org_of_path("/"), "");
    assert_eq!(org_of_path("/api"), "");
    assert_eq!(org_of_path("/api/"), "");
    assert_eq!(org_of_path("/api//x"), "");
    assert_eq!(org_of_path("api"), "");
}

#[test]
fn request_goes_to_the_tenant_the_root_or_nowhere() {
    assert_eq!(route("acme", true, true), Route::Tenant);
    assert_eq!(route("acme", true, false), Route::Tenant);
    assert_eq!(route("", true, true), Route::Tenant);
    assert_eq!(route("", false, true), Route::Root);
    assert_eq!(route("", false, false), Route::NotFound);
    assert_eq!(route("acme", false, true), Route::NotFound);
    assert_eq!(route("acme", false, false), Route::NotFound);
}

#[test]
fn playground_asks_the_endpoint_of_the_tenant() {
    assert_eq!(playground_endpoint(""), "/api/");
    assert_eq!(playground_endpoint("acme"), "/api/acme");
}
