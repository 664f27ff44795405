//! Protocol-specific definitions a server can carry.

use vstd::prelude::*;

verus! {

/// Protocol-specific information for an AMQP 1.0 server.
pub struct AMPQ1ServerBinding {}

/// Protocol-specific information for an AMQP 0-9-1 server.
pub struct AMPQServerBinding {}

/// Protocol-specific information for an Anypoint MQ server.
pub struct AnyPointMQServerBinding {}

/// Protocol-specific information for an HTTP server.
pub struct HTTPServerBinding {}

/// Protocol-specific information for an IBM MQ server.
pub struct IBMMQServerBinding {
    pub group_id: Option<String>,
    pub ccdt_queue_manager_name: Option<String>,
    pub cipher_spec: Option<String>,
    pub multi_endpoint_server: Option<bool>,
    pub heart_beat_interval: Option<i32>,
    pub binding_version: Option<String>,
}

/// Protocol-specific information for a JMS server.
pub struct JMSServerBinding {}

/// Protocol-specific information for a Kafka server.
pub struct KafkaServerBinding {}

/// Protocol-specific information for an MQTT 5 server.
pub struct MQTT5ServerBinding {}

/// Protocol-specific information for an MQTT server.
pub struct MQTTServerBinding {
    pub client_id: Option<String>,
    pub clean_session: Option<bool>,
    pub last_will: Option<MQTTServerBindingLasWill>,
    pub keep_alive: Option<i32>,
    pub binding_version: Option<String>,
}

/// Part of the MQTT server binding.
pub struct MQTTServerBindingLasWill {
    pub topic: Option<String>,
    pub qos: Option<i32>,
    pub message: Option<String>,
    pub retain: Option<bool>,
}

/// Protocol-specific information for a Mercure server.
pub struct MercureServerBinding {}

/// Protocol-specific information for a NATS server.
pub struct NATSServerBinding {}

/// Protocol-specific information for a Redis server.
pub struct RedisServerBinding {}

/// Protocol-specific information for an SNS server.
pub struct SNSServerBinding {}

/// Protocol-specific information for an SQS server.
pub struct SQSServerBinding {}

/// Protocol-specific information for a STOMP server.
pub struct STOMPServerBinding {}

/// Protocol-specific information for a Solace server.
pub struct SolaceServerBinding {
    pub binding_version: Option<String>,
    pub msg_vpn: Option<String>,
}

/// Protocol-specific information for a WebSockets server.
pub struct WebsocketsServerBinding {}

} // verus!
