use billow::reference::normalize_image_reference;

#[test]
fn normalizes_short_docker_hub_references() {
    assert_eq!(
        normalize_image_reference("hello-world").unwrap(),
        "docker.io/library/hello-world:latest"
    );
    assert_eq!(
        normalize_image_reference("library/alpine").unwrap(),
        "docker.io/library/alpine:latest"
    );
    assert_eq!(
        normalize_image_reference("alpine:3.20").unwrap(),
        "docker.io/library/alpine:3.20"
    );
}

#[test]
fn preserves_registry_and_digest_references() {
    assert_eq!(
        normalize_image_reference("ghcr.io/acme/app").unwrap(),
        "ghcr.io/acme/app:latest"
    );
    assert_eq!(
        normalize_image_reference("localhost:5000/acme/app:v1").unwrap(),
        "localhost:5000/acme/app:v1"
    );
    assert_eq!(
        normalize_image_reference("alpine@sha256:abc").unwrap(),
        "docker.io/library/alpine@sha256:abc"
    );
}

#[test]
fn rejects_invalid_references() {
    assert!(normalize_image_reference("").is_err());
    assert!(normalize_image_reference("hello world").is_err());
}

#[test]
fn reference_errors_name_the_problem() {
    assert_eq!(
        normalize_image_reference("   ").unwrap_err(),
        "image reference cannot be empty"
    );
    assert_eq!(
        normalize_image_reference("hello\tworld").unwrap_err(),
        "image reference cannot contain whitespace"
    );
}

#[test]
fn reference_is_trimmed_and_keeps_localhost_registry() {
    assert_eq!(
        normalize_image_reference("  localhost/app \n").unwrap(),
        "localhost/app:latest"
    );
    assert_eq!(
        normalize_image_reference("docker.io/nginx").unwrap(),
        "docker.io/library/nginx:latest"
    );
    assert_eq!(
        normalize_image_reference("registry:5000/app").unwrap(),
        "registry:5000/app:latest"
    );
}
