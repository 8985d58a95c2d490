use sdkman_gui::models::{Category, JdkCategory};

#[test]
fn known_names_decide_the_category() {
    assert_eq!(Category::from_name("java", ""), Category::Languages);
    assert_eq!(Category::from_name("sbl", "build tool"), Category::Languages);
    assert_eq!(Category::from_name("gradle", "a programming language"), Category::BuildTools);
    assert_eq!(Category::from_name("bld", ""), Category::BuildTools);
    assert_eq!(Category::from_name("springboot", ""), Category::Frameworks);
    assert_eq!(Category::from_name("vertx", ""), Category::Frameworks);
    assert_eq!(Category::from_name("tomcat", ""), Category::Servers);
    assert_eq!(Category::from_name("akka", ""), Category::Servers);
    assert_eq!(Category::from_name("activemq", "server"), Category::Mq);
    assert_eq!(Category::from_name("kcctl", ""), Category::Mq);
    assert_eq!(Category::from_name("visualvm", ""), Category::Tools);
    assert_eq!(Category::from_name("redis", "language"), Category::Tools);
}

#[test]
fn names_are_compared_in_lower_case() {
    assert_eq!(Category::from_name("JAVA", ""), Category::Languages);
    assert_eq!(Category::from_name("Gradle", ""), Category::BuildTools);
    assert_eq!(Category::from_name("ActiveMQ", ""), Category::Mq);
    assert_eq!(Category::from_name("x", "A Programming LANGUAGE"), Category::Languages);
    assert_eq!(Category::from_lowercase("JAVA", ""), Category::Other);
    assert_eq!(Category::from_lowercase("x", "LANGUAGE"), Category::Other);
}

#[test]
fn description_decides_for_unknown_names() {
    assert_eq!(Category::from_name("x", "a compiler for the JVM"), Category::Languages);
    assert_eq!(Category::from_name("x", "build automation for everyone"), Category::BuildTools);
    assert_eq!(Category::from_name("x", "project management"), Category::BuildTools);
    assert_eq!(Category::from_name("x", "a microframework"), Category::Frameworks);
    assert_eq!(Category::from_name("x", "a servlet container"), Category::Servers);
    assert_eq!(Category::from_name("x", "an application server"), Category::Servers);
    assert_eq!(Category::from_name("x", "a utility"), Category::Tools);
    assert_eq!(Category::from_name("x", "monitoring and debugging"), Category::Tools);
}

#[test]
fn description_words_are_tried_in_order() {
    assert_eq!(Category::from_name("x", "a build tool for a language"), Category::Languages);
    assert_eq!(Category::from_name("x", "a build tool and framework"), Category::BuildTools);
    assert_eq!(Category::from_name("x", "a framework for servers"), Category::Frameworks);
    assert_eq!(Category::from_name("x", "a server tool"), Category::Servers);
}

#[test]
fn name_parts_are_the_last_resort() {
    assert_eq!(Category::from_name("golang", ""), Category::Languages);
    assert_eq!(Category::from_name("mybuild", ""), Category::BuildTools);
    assert_eq!(Category::from_name("gradleprofiler", ""), Category::BuildTools);
    assert_eq!(Category::from_name("infrastructor", ""), Category::Other);
    assert_eq!(Category::from_name("springcli", ""), Category::Frameworks);
    assert_eq!(Category::from_name("micronautx", ""), Category::Frameworks);
    assert_eq!(Category::from_name("webserver", ""), Category::Servers);
    assert_eq!(Category::from_name("jetty12", ""), Category::Servers);
    assert_eq!(Category::from_name("pant", "nothing to see"), Category::BuildTools);
}

#[test]
fn everything_else_is_other() {
    assert_eq!(Category::from_name("", ""), Category::Other);
    assert_eq!(Category::from_name("jreleaser", "release your project"), Category::Other);
    assert_eq!(Category::from_name("javax", ""), Category::Other);
}

#[test]
fn jdk_categories_from_identifier() {
    assert_eq!(JdkCategory::from_identifier("21.0.9-amzn"), vec![JdkCategory::Jdk]);
    assert_eq!(JdkCategory::from_identifier(""), vec![JdkCategory::Jdk]);
    assert_eq!(JdkCategory::from_identifier("21.0.9.fx-librca"), vec![JdkCategory::JavaFx]);
    assert_eq!(JdkCategory::from_identifier("25.0.1-nik"), vec![JdkCategory::Nik]);
    assert_eq!(
        JdkCategory::from_identifier("25.0.1.fx-nik"),
        vec![JdkCategory::JavaFx, JdkCategory::Nik]
    );
}

#[test]
fn jdk_categories_ignore_case() {
    assert_eq!(JdkCategory::from_identifier("21.0.9.FX-librca"), vec![JdkCategory::JavaFx]);
    assert_eq!(JdkCategory::from_identifier("25.0.1-NIK"), vec![JdkCategory::Nik]);
    assert_eq!(JdkCategory::from_lowercase("25.0.1-NIK"), vec![JdkCategory::Jdk]);
    assert_eq!(JdkCategory::from_lowercase("25.0.1-nik"), vec![JdkCategory::Nik]);
    assert_eq!(JdkCategory::from_identifier("21fx-nik2"), vec![JdkCategory::Nik]);
}
